//! The window that shows the pages of the local server.
use vstd::prelude::*;

use crate::effect::{
    fails, Effect, EffectView, PageWindow, Reply, ReplyView, Step, StepView, WindowView,
};
use crate::status::{server_url, url};

verus! {

/// The script that puts an address bar above every page.
pub const ADDRESS_BAR_SCRIPT: &'static str = r#"
(() => {
  const id = 'nocobase-desktop-address-bar';
  document.getElementById(id)?.remove();
  const bar = document.createElement('div');
  bar.id = id;
  bar.style.cssText = 'position:fixed;top:0;left:0;right:0;height:42px;z-index:2147483647;display:flex;align-items:center;gap:8px;padding:6px 10px;background:#f3f4f7;border-bottom:1px solid #d8dce3;font:13px -apple-system,BlinkMacSystemFont,sans-serif;';
  const input = document.createElement('input');
  input.value = location.href;
  input.setAttribute('aria-label', '地址');
  input.style.cssText = 'flex:1;height:28px;border:1px solid #c9ced8;border-radius:7px;padding:0 10px;background:white;color:#252a33;outline:none;';
  input.addEventListener('keydown', (event) => {
    if (event.key === 'Enter') location.href = input.value;
  });
  const copy = document.createElement('button');
  copy.textContent = '复制';
  copy.style.cssText = 'height:28px;border:1px solid #c9ced8;border-radius:7px;padding:0 12px;background:white;color:#353b47;cursor:pointer;';
  copy.addEventListener('click', async () => {
    await navigator.clipboard.writeText(input.value);
    copy.textContent = '已复制';
    setTimeout(() => copy.textContent = '复制', 1000);
  });
  bar.append(input, copy);
  document.documentElement.style.paddingTop = '42px';
  document.documentElement.style.boxSizing = 'border-box';
  document.documentElement.style.height = '100%';
  document.body.style.height = 'calc(100% - 42px)';
  document.body.appendChild(bar);
})();
"#;

/// What opening the window waits for.
#[derive(Clone, Copy, Debug, PartialEq, Eq, Structural)]
pub enum WindowPhase {
    Find,
    Navigate,
    Focus,
    Open,
}

impl View for WindowPhase {
    type V = WindowPhase;

    open spec fn view(&self) -> WindowPhase {
        *self
    }
}

/// The window as it is opened.
pub open spec fn server_window() -> WindowView {
    WindowView {
        label: "nocobase"@,
        title: "NocoBase"@,
        url: server_url(),
        width: 1280,
        height: 840,
        page_script: ADDRESS_BAR_SCRIPT@,
    }
}

/// The first thing to do: look for the window.
pub open spec fn window_first() -> StepView<WindowPhase, ()> {
    StepView::Perform(WindowPhase::Find, EffectView::FindWindow("nocobase"@))
}

/// How opening the window goes on from `phase` when the reply `r` has come. A window that is
/// open already goes back to the first page and comes to the front.
pub open spec fn window_step(phase: WindowPhase, r: ReplyView) -> StepView<WindowPhase, ()> {
    match phase {
        WindowPhase::Find => match r.answer() {
            Ok(true) => StepView::Perform(
                WindowPhase::Navigate,
                EffectView::Navigate("nocobase"@, server_url()),
            ),
            Ok(false) => StepView::Perform(
                WindowPhase::Open,
                EffectView::OpenWindow(server_window()),
            ),
            Err(m) => fails(m),
        },
        WindowPhase::Navigate => match r.done() {
            Ok(_) => StepView::Perform(WindowPhase::Focus, EffectView::FocusWindow("nocobase"@)),
            Err(m) => fails(m),
        },
        WindowPhase::Focus => StepView::Finished(r.done()),
        WindowPhase::Open => StepView::Finished(r.done()),
    }
}

/// Begins to show the pages of the server.
pub fn open_nocobase() -> (r: Step<WindowPhase, ()>)
    ensures
        r@ == window_first(),
{
    Step::Perform(WindowPhase::Find, Effect::FindWindow("nocobase".to_owned()))
}

/// Goes on with showing the pages from `phase` when the reply has come.
pub fn open_nocobase_next(phase: WindowPhase, reply: Reply) -> (r: Step<WindowPhase, ()>)
    ensures
        r@ == window_step(phase, reply@),
{
    match phase {
        WindowPhase::Find => match reply.answer() {
            Ok(open) => if open {
                Step::Perform(
                    WindowPhase::Navigate,
                    Effect::Navigate("nocobase".to_owned(), url()),
                )
            } else {
                Step::Perform(
                    WindowPhase::Open,
                    Effect::OpenWindow(
                        PageWindow {
                            label: "nocobase".to_owned(),
                            title: "NocoBase".to_owned(),
                            url: url(),
                            width: 1280,
                            height: 840,
                            page_script: ADDRESS_BAR_SCRIPT.to_owned(),
                        },
                    ),
                )
            },
            Err(m) => Step::Finished(Err(m)),
        },
        WindowPhase::Navigate => match reply.done() {
            Ok(_) => Step::Perform(
                WindowPhase::Focus,
                Effect::FocusWindow("nocobase".to_owned()),
            ),
            Err(m) => Step::Finished(Err(m)),
        },
        WindowPhase::Focus => Step::Finished(reply.done()),
        WindowPhase::Open => Step::Finished(reply.done()),
    }
}

/// The window is opened with the address bar for every page, word for word: the bar shows the
/// address, goes where it is told, and copies it.
pub proof fn law_page_script_is_the_address_bar()
    ensures
        server_window().page_script == r#"
(() => {
  const id = 'nocobase-desktop-address-bar';
  document.getElementById(id)?.remove();
  const bar = document.createElement('div');
  bar.id = id;
  bar.style.cssText = 'position:fixed;top:0;left:0;right:0;height:42px;z-index:2147483647;display:flex;align-items:center;gap:8px;padding:6px 10px;background:#f3f4f7;border-bottom:1px solid #d8dce3;font:13px -apple-system,BlinkMacSystemFont,sans-serif;';
  const input = document.createElement('input');
  input.value = location.href;
  input.setAttribute('aria-label', '地址');
  input.style.cssText = 'flex:1;height:28px;border:1px solid #c9ced8;border-radius:7px;padding:0 10px;background:white;color:#252a33;outline:none;';
  input.addEventListener('keydown', (event) => {
    if (event.key === 'Enter') location.href = input.value;
  });
  const copy = document.createElement('button');
  copy.textContent = '复制';
  copy.style.cssText = 'height:28px;border:1px solid #c9ced8;border-radius:7px;padding:0 12px;background:white;color:#353b47;cursor:pointer;';
  copy.addEventListener('click', async () => {
    await navigator.clipboard.writeText(input.value);
    copy.textContent = '已复制';
    setTimeout(() => copy.textContent = '复制', 1000);
  });
  bar.append(input, copy);
  document.documentElement.style.paddingTop = '42px';
  document.documentElement.style.boxSizing = 'border-box';
  document.documentElement.style.height = '100%';
  document.body.style.height = 'calc(100% - 42px)';
  document.body.appendChild(bar);
})();
"#@,
        ADDRESS_BAR_SCRIPT@ == server_window().page_script,
{
}

} // verus!
