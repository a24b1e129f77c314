use bigbrother::common::config::{AppConfig, Manager, PushConfig, TaskConfig};
use bigbrother::common::error::Error;
use bigbrother::task::alist::{check_reply, settings};
use bigbrother::task::push::{
    channel, envelope, stamped, telegram_message, wecom_accepted, wecom_send_url, wecom_target,
    wecom_token_url, AccessToken, Channel, TokenCache,
};
use bigbrother::task::tmdb::{
    api_key, detail_failure, first_result, search_query, status_failure, tv_info, SearchTvResult,
    TvDetail,
};

fn push(channel: &str, params: &[(&str, &str)]) -> PushConfig {
    PushConfig {
        channel: channel.to_string(),
        params: params.iter().map(|(k, v)| (k.to_string(), v.to_string())).collect(),
    }
}

fn text(e: Error) -> String {
    e.message()
}

#[test]
fn manager_of_a_data_directory() {
    let e = Manager::assemble("", None, None).err().unwrap();
    assert_eq!(e.message(), "internal error, config dir is empty");
    assert!(e.fatal());
    let m = Manager::assemble("./data", None, Some(vec![TaskConfig::default()])).unwrap();
    assert_eq!(m.get_data_dir(), "./data");
    assert_eq!(m.get_app_config().alist_host, "");
    assert_eq!(m.get_app_config().push.channel, "");
    assert!(m.get_tasks().is_empty());
    let config = AppConfig {
        alist_host: "h".to_string(),
        alist_api_token: "t".to_string(),
        tmdb_api_key: "k".to_string(),
        push: push("wecom", &[]),
    };
    let tasks = vec![
        TaskConfig { src_dir: "/a".to_string(), dest_dir: "/b".to_string() },
        TaskConfig { src_dir: "/c".to_string(), dest_dir: "/d".to_string() },
    ];
    let m = Manager::assemble("d", Some(config), Some(tasks)).unwrap();
    assert_eq!(m.get_data_dir(), "d");
    assert_eq!(m.get_app_config().alist_host, "h");
    assert_eq!(m.get_app_config().alist_api_token, "t");
    assert_eq!(m.get_app_config().tmdb_api_key, "k");
    assert_eq!(m.get_app_config().push.channel, "wecom");
    assert_eq!(m.get_tasks().len(), 2);
    assert_eq!(m.get_tasks()[1].src_dir, "/c");
    assert_eq!(m.get_tasks()[1].dest_dir, "/d");
    let m = Manager::assemble("d", Some(AppConfig::default()), None).unwrap();
    assert!(m.get_tasks().is_empty());
    let m = Manager::from(AppConfig { tmdb_api_key: "k".to_string(), ..AppConfig::default() });
    assert_eq!(m.get_data_dir(), "");
    assert_eq!(m.get_app_config().tmdb_api_key, "k");
    assert!(m.get_tasks().is_empty());
}

#[test]
fn failures_and_their_texts() {
    let e = Error::NotFound("x".to_string());
    assert_eq!(e.message(), "not found, message: x");
    assert!(!e.fatal());

    let e = Error::Internal("y".to_string());
    assert_eq!(e.message(), "internal error, y");
    assert!(e.fatal());

}

#[test]
fn parameters_by_name() {
    let p = push("telegram", &[("token", "a"), ("chat_id", "1"), ("token", "b")]);
    assert_eq!(p.param("token").map(|s| s.as_str()), Some("b"));
    assert_eq!(p.param("chat_id").map(|s| s.as_str()), Some("1"));
    assert_eq!(p.param("Token"), None);
    assert_eq!(p.param(""), None);
    assert_eq!(PushConfig::default().param("token"), None);
}

#[test]
fn channels() {
    assert_eq!(channel(&push("telegram", &[])), Channel::Telegram);
    assert_eq!(channel(&push("wecom", &[])), Channel::Wecom);
    assert_eq!(channel(&push("", &[])), Channel::Silent);
    assert_eq!(channel(&push("Telegram", &[])), Channel::Silent);
    assert_eq!(envelope("hi"), "BigBrother \u{6765}\u{4fe1}\nhi");
}

#[test]
fn telegram_messages() {
    let m = telegram_message(&push("telegram", &[("token", "T"), ("chat_id", "42")]), "hi").unwrap();
    assert_eq!(m.url, "https://api.telegram.org/botT/sendMessage");
    assert_eq!(m.chat_id, "42");
    assert_eq!(m.text, "hi");
    assert!(telegram_message(&push("telegram", &[("token", "T")]), "hi").is_none());
    assert!(telegram_message(&push("telegram", &[("token", ""), ("chat_id", "42")]), "hi").is_none());
    assert!(telegram_message(&push("telegram", &[]), "hi").is_none());
}

#[test]
fn wecom_targets() {
    let all = [("corp_id", "c"), ("agent_id", "a"), ("corp_secret", "s")];
    let t = wecom_target(&push("wecom", &all)).unwrap();
    assert_eq!(t.corp_id, "c");
    assert_eq!(t.agent_id, "a");
    assert_eq!(t.corp_secret, "s");
    assert_eq!(t.user_id, "@all");
    let t = wecom_target(&push("wecom", &[all[0], all[1], all[2], ("user_id", "u")])).unwrap();
    assert_eq!(t.user_id, "u");
    assert!(wecom_target(&push("wecom", &all[..2])).is_none());
    assert!(wecom_target(&push("wecom", &[all[0], all[2]])).is_none());
    assert!(wecom_target(&push("wecom", &all[1..])).is_none());
    assert_eq!(
        wecom_token_url("c", "s"),
        "https://qyapi.weixin.qq.com/cgi-bin/gettoken?corpid=c&corpsecret=s"
    );
    assert_eq!(
        wecom_send_url("tok"),
        "https://qyapi.weixin.qq.com/cgi-bin/message/send?access_token=tok"
    );
    assert!(wecom_accepted("{\"errcode\":0,\"errmsg\":\"ok\"}"));
    assert!(!wecom_accepted("{\"errcode\":40014}"));
    assert!(!wecom_accepted("{\"errcode\": 0}"));
    assert!(!wecom_accepted(""));
}

fn token(errcode: i32, expires_in: u64) -> AccessToken {
    AccessToken {
        errcode,
        errmsg: "msg".to_string(),
        access_token: "tok".to_string(),
        expires_in,
        expires_at: 0,
    }
}

#[test]
fn access_tokens_and_their_ends() {
    let t = stamped(token(0, 7200), 1000).unwrap();
    assert_eq!(t.expires_at, 8190);
    assert_eq!(t.expires_in, 7200);
    assert_eq!(t.access_token, "tok");
    assert_eq!(stamped(token(0, 3), 4).unwrap().expires_at, 0);
    assert_eq!(stamped(token(0, 5), 5).unwrap().expires_at, 0);
    assert_eq!(stamped(token(0, 6), 5).unwrap().expires_at, 1);
    assert_eq!(stamped(token(0, u64::MAX), 5).unwrap().expires_at, u64::MAX - 10);
    let e = stamped(token(40013, 7200), 1000).unwrap_err();
    assert_eq!(
        text(e),
        "internal error, get wecom access token failed, errcode: 40013, errmsg: msg"
    );
    let e = stamped(token(-1, 7200), 1000).unwrap_err();
    assert_eq!(text(e), "internal error, get wecom access token failed, errcode: -1, errmsg: msg");
}

#[test]
fn the_token_cache() {
    let mut cache = TokenCache::new();
    assert_eq!(cache.get(0, false), None);
    let t = stamped(token(0, 100), 1000).unwrap();
    assert_eq!(cache.store(t), "tok");
    assert_eq!(cache.get(1000, false), Some("tok".to_string()));
    assert_eq!(cache.get(1089, false), Some("tok".to_string()));
    assert_eq!(cache.get(1090, false), None);
    assert_eq!(cache.get(5000, false), None);
    assert_eq!(cache.get(1000, true), None);
}

#[test]
fn answers_of_the_file_store() {
    assert!(check_reply(200, "whatever not found".to_string()).is_ok());
    let e = check_reply(500, "object not found".to_string()).unwrap_err();
    assert_eq!(text(e), "not found, message: object not found");
    let e = check_reply(404, "Not Found".to_string()).unwrap_err();
    assert_eq!(text(e), "internal error, http post failed, code: 404, message: Not Found");
    let e = check_reply(-7, "".to_string()).unwrap_err();
    assert_eq!(text(e), "internal error, http post failed, code: -7, message: ");
    let mut config = AppConfig::default();
    assert_eq!(text(settings(&config).unwrap_err()), "internal error, alist host is empty");
    config.alist_host = "h".to_string();
    assert_eq!(text(settings(&config).unwrap_err()), "internal error, alist token not set");
    config.alist_api_token = "t".to_string();
    assert_eq!(settings(&config).unwrap(), ("h", "t"));
}

#[test]
fn answers_of_the_metadata_provider() {
    let d = TvDetail {
        name: "The Office".to_string(),
        first_air_date: "2005-03-24".to_string(),
        number_of_seasons: 9,
    };
    let info = tv_info(&d);
    assert_eq!(info.name, "The Office");
    assert_eq!(info.year, "2005");
    assert_eq!(info.number_of_seasons, 9);
    for (date, year) in [("", ""), ("2005", "2005"), ("-03", ""), ("20-05-", "20")] {
        let d = TvDetail { name: String::new(), first_air_date: date.to_string(), number_of_seasons: 0 };
        assert_eq!(tv_info(&d).year, year);
    }
    let found = vec![SearchTvResult { id: 5 }, SearchTvResult { id: 6 }];
    assert_eq!(first_result(&found, "x").unwrap(), 5);
    let e = first_result(&Vec::new(), "The Office").unwrap_err();
    assert_eq!(text(e), "not found, message: no tv found in tmdb for The Office");
    let e = detail_failure(12, Error::NotFound("tmdb not found".to_string()));
    assert_eq!(text(e), "not found, message: can not find tv 12 in tmdb");
    let e = detail_failure(12, Error::Internal("boom".to_string()));
    assert_eq!(text(e), "internal error, boom");
    let e = status_failure(404, "/tv/1", "404 Not Found", "{}");
    assert_eq!(text(e), "not found, message: tmdb not found");
    let e = status_failure(500, "/tv/1", "500 Internal Server Error", "oops");
    assert_eq!(
        text(e),
        "internal error, http get /tv/1 failed, status: 500 Internal Server Error, body: oops"
    );
    let q = search_query("The Office", Some(2005));
    let want = [
        ("query", "The Office"),
        ("include_adult", "true"),
        ("page", "1"),
        ("first_air_date_year", "2005"),
    ];
    assert_eq!(q.len(), 4);
    for (got, want) in q.iter().zip(want.iter()) {
        assert_eq!((got.0.as_str(), got.1.as_str()), *want);
    }
    assert_eq!(search_query("x", None)[3].1, "");
    let mut config = AppConfig::default();
    assert_eq!(text(api_key(&config).unwrap_err()), "internal error, tmdb api key is empty");
    config.tmdb_api_key = "k".to_string();
    assert_eq!(api_key(&config).unwrap(), "k");
}
