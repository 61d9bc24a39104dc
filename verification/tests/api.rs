use nocobase_desktop::api::{api_ready, wait_for_api, wait_for_api_next};
use nocobase_desktop::effect::{Effect, HttpProbe, Reply, Step};

const READY: &str = "HTTP/1.1 200 OK\r\nContent-Type: application/json\r\n\r\n{\"data\":{}}";

#[test]
fn ready_response_is_a_success_with_json() {
    assert!(api_ready(READY));
    assert!(!api_ready("HTTP/1.1 503 Unavailable\r\nContent-Type: application/json\r\n\r\n{}"));
    assert!(!api_ready("HTTP/1.1 200 OK\r\nContent-Type: text/html\r\n\r\n"));
    assert!(!api_ready("HTTP/1.1 200 OK\r\napplication/json\r\n\r\nAPP_COMMANDING"));
    assert!(!api_ready("HTTP/1.1 200 OK\r\napplication/json\r\n\r\n{\"maintaining\":true}"));
    assert!(api_ready("HTTP/1.1 200 OK\r\napplication/json\r\n\r\n{\"maintaining\":false}"));
    assert!(!api_ready(" HTTP/1.1 200 OK\r\napplication/json"));
    assert!(!api_ready(""));
}

/// Waits for a server whose `n`-th response, counted from 0, is the first ready one.
fn wait(n: usize) -> (Result<(), String>, usize, u64) {
    let mut requests: usize = 0;
    let mut slept: u64 = 0;
    let mut step = wait_for_api();
    loop {
        match step {
            Step::Perform(phase, effect) => {
                let reply = match effect {
                    Effect::Request(probe) => {
                        assert_eq!(
                            probe,
                            HttpProbe {
                                port: 14300,
                                connect_millis: 300,
                                read_millis: 1000,
                                request: "GET /api/app:getLang HTTP/1.1\r\nHost: 127.0.0.1\r\nConnection: close\r\n\r\n".to_string(),
                            }
                        );
                        requests += 1;
                        if requests > n {
                            Reply::Text(Ok(READY.to_string()))
                        } else {
                            Reply::Text(Err("refused".to_string()))
                        }
                    }
                    Effect::Sleep(millis) => {
                        slept += millis;
                        Reply::Done(Ok(()))
                    }
                    other => panic!("unexpected effect {:?}", other),
                };
                step = wait_for_api_next(phase, reply);
            }
            Step::Finished(result) => return (result, requests, slept),
        }
    }
}

#[test]
fn waiting_ends_with_the_first_ready_response() {
    assert_eq!(wait(0), (Ok(()), 1, 0));
    assert_eq!(wait(7), (Ok(()), 8, 7000));
    assert_eq!(wait(299), (Ok(()), 300, 299000));
}

#[test]
fn waiting_gives_up_after_five_minutes() {
    let message = "NocoBase 在 5 分钟内未完成数据源加载，请查看运行日志".to_string();
    assert_eq!(wait(300), (Err(message), 300, 300000));
}
