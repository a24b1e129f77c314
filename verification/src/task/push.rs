//! How a message is pushed: which channel carries it, what the channel is
//! sent, and the access token that one of the channels needs.

use crate::common::config::{param_of, PushConfig, PushConfigView};
use crate::common::error::{Error, ErrorView};
use crate::text::{contains, number_text, occurs_in, same_text, write_number};
use vstd::prelude::*;

verus! {

/// The channels that carry messages.
#[derive(Debug, Clone, Copy, PartialEq, Eq, Structural)]
pub enum Channel {
    Telegram,
    Wecom,
    /// No channel: messages are dropped.
    Silent,
}

/// The channel that the settings name.
pub open spec fn channel_of(name: Seq<char>) -> Channel {
    if name == "telegram"@ {
        Channel::Telegram
    } else if name == "wecom"@ {
        Channel::Wecom
    } else {
        Channel::Silent
    }
}

/// Computes [`channel_of`].
pub fn channel(push: &PushConfig) -> (r: Channel)
    ensures
        r == channel_of(push@.channel),
{
    if same_text(push.channel.as_str(), "telegram") {
        Channel::Telegram
    } else if same_text(push.channel.as_str(), "wecom") {
        Channel::Wecom
    } else {
        Channel::Silent
    }
}

/// The text that is sent for `message`: a heading line, then the message.
pub open spec fn envelope_of(message: Seq<char>) -> Seq<char> {
    "BigBrother \u{6765}\u{4fe1}\n"@ + message
}

/// Computes [`envelope_of`].
pub fn envelope(message: &str) -> (r: String)
    ensures
        r@ == envelope_of(message@),
{
    let mut r = String::from_str("BigBrother \u{6765}\u{4fe1}\n");
    r.append(message);
    r
}

/// The value of a parameter, or `default` where it is not set.
pub open spec fn param_or(
    params: Seq<(Seq<char>, Seq<char>)>,
    key: Seq<char>,
    default: Seq<char>,
) -> Seq<char> {
    match param_of(params, key) {
        Some(v) => v,
        None => default,
    }
}

/// Computes [`param_or`].
fn value_or(push: &PushConfig, key: &str, default: &str) -> (r: String)
    ensures
        r@ == param_or(push@.params, key@, default@),
{
    match push.param(key) {
        Some(v) => v.clone(),
        None => String::from_str(default),
    }
}

/// What Telegram is sent, as plain values.
pub struct TelegramMessageView {
    pub url: Seq<char>,
    pub chat_id: Seq<char>,
    pub text: Seq<char>,
}

/// What Telegram is sent: the address of the bot and the chat with the text.
#[derive(Debug)]
pub struct TelegramMessage {
    pub url: String,
    pub chat_id: String,
    pub text: String,
}

impl View for TelegramMessage {
    type V = TelegramMessageView;

    open spec fn view(&self) -> TelegramMessageView {
        TelegramMessageView { url: self.url@, chat_id: self.chat_id@, text: self.text@ }
    }
}

/// What Telegram is sent for `message`: nothing where the bot's token or
/// the chat is not set.
pub open spec fn telegram_message_of(push: PushConfigView, message: Seq<char>) -> Option<
    TelegramMessageView,
> {
    let token = param_or(push.params, "token"@, ""@);
    let chat_id = param_or(push.params, "chat_id"@, ""@);
    if token.len() == 0 || chat_id.len() == 0 {
        None
    } else {
        Some(
            TelegramMessageView {
                url: "https://api.telegram.org/bot"@ + token + "/sendMessage"@,
                chat_id,
                text: message,
            },
        )
    }
}

/// Computes [`telegram_message_of`].
pub fn telegram_message(push: &PushConfig, message: &str) -> (r: Option<TelegramMessage>)
    ensures
        match r {
            Some(m) => telegram_message_of(push@, message@) == Some(m@),
            None => telegram_message_of(push@, message@) is None,
        },
{
    let token = value_or(push, "token", "");
    let chat_id = value_or(push, "chat_id", "");
    if token.as_str().is_empty() || chat_id.as_str().is_empty() {
        None
    } else {
        let mut url = String::from_str("https://api.telegram.org/bot");
        url.append(token.as_str());
        url.append("/sendMessage");
        Some(TelegramMessage { url, chat_id, text: String::from_str(message) })
    }
}

/// Whom WeCom is asked to tell, as plain values.
pub struct WecomTargetView {
    pub corp_id: Seq<char>,
    pub agent_id: Seq<char>,
    pub corp_secret: Seq<char>,
    pub user_id: Seq<char>,
}

/// Whom WeCom is asked to tell, and in whose name.
#[derive(Debug)]
pub struct WecomTarget {
    pub corp_id: String,
    pub agent_id: String,
    pub corp_secret: String,
    pub user_id: String,
}

impl View for WecomTarget {
    type V = WecomTargetView;

    open spec fn view(&self) -> WecomTargetView {
        WecomTargetView {
            corp_id: self.corp_id@,
            agent_id: self.agent_id@,
            corp_secret: self.corp_secret@,
            user_id: self.user_id@,
        }
    }
}

/// Whom WeCom is asked to tell: nobody where the corporation, the agent or
/// the secret is not set, and everybody where no user is named.
pub open spec fn wecom_target_of(push: PushConfigView) -> Option<WecomTargetView> {
    let corp_id = param_or(push.params, "corp_id"@, ""@);
    let agent_id = param_or(push.params, "agent_id"@, ""@);
    let corp_secret = param_or(push.params, "corp_secret"@, ""@);
    if corp_id.len() == 0 || agent_id.len() == 0 || corp_secret.len() == 0 {
        None
    } else {
        Some(
            WecomTargetView {
                corp_id,
                agent_id,
                corp_secret,
                user_id: param_or(push.params, "user_id"@, "@all"@),
            },
        )
    }
}

/// Computes [`wecom_target_of`].
pub fn wecom_target(push: &PushConfig) -> (r: Option<WecomTarget>)
    ensures
        match r {
            Some(t) => wecom_target_of(push@) == Some(t@),
            None => wecom_target_of(push@) is None,
        },
{
    let corp_id = value_or(push, "corp_id", "");
    let agent_id = value_or(push, "agent_id", "");
    let corp_secret = value_or(push, "corp_secret", "");
    if corp_id.as_str().is_empty() || agent_id.as_str().is_empty()
        || corp_secret.as_str().is_empty() {
        None
    } else {
        Some(WecomTarget { corp_id, agent_id, corp_secret, user_id: value_or(push, "user_id", "@all") })
    }
}

/// The address at which WeCom hands out an access token.
pub fn wecom_token_url(corp_id: &str, corp_secret: &str) -> (r: String)
    ensures
        r@ == "https://qyapi.weixin.qq.com/cgi-bin/gettoken?corpid="@ + corp_id@ + "&corpsecret="@
            + corp_secret@,
{
    let mut r = String::from_str("https://qyapi.weixin.qq.com/cgi-bin/gettoken?corpid=");
    r.append(corp_id);
    r.append("&corpsecret=");
    r.append(corp_secret);
    r
}

/// The address at which WeCom takes a message.
pub fn wecom_send_url(access_token: &str) -> (r: String)
    ensures
        r@ == "https://qyapi.weixin.qq.com/cgi-bin/message/send?access_token="@ + access_token@,
{
    let mut r = String::from_str("https://qyapi.weixin.qq.com/cgi-bin/message/send?access_token=");
    r.append(access_token);
    r
}

/// Whether WeCom's answer says that it took the message: it holds
/// `"errcode":0`.
pub fn wecom_accepted(content: &str) -> (r: bool)
    ensures
        r == occurs_in(content@, "\"errcode\":0"@),
{
    contains(content, "\"errcode\":0")
}

/// An access token as WeCom hands it out, with the time at which it ends.
#[derive(Debug)]
pub struct AccessToken {
    pub errcode: i32,
    pub errmsg: String,
    pub access_token: String,
    /// For how many seconds the token is good.
    pub expires_in: u64,
    /// The second, counted from 1970, from which the token is no longer used.
    pub expires_at: u64,
}

/// The seconds that a token is given up before it ends.
pub open spec fn expiry_margin() -> int {
    10
}

/// The second from which a token that was handed out at `now` for
/// `expires_in` seconds is no longer used: ten seconds before it ends, within
/// what 64 bits can hold.
pub open spec fn expiry_of(expires_in: int, now: int) -> int {
    let end = if expires_in + now > u64::MAX {
        u64::MAX as int
    } else {
        expires_in + now
    };
    if end < expiry_margin() {
        0
    } else {
        end - expiry_margin()
    }
}

/// Takes a token that WeCom handed out at the second `now`: a token with an
/// error code is a failure, and a good one gets its end.
pub fn stamped(token: AccessToken, now: u64) -> (r: Result<AccessToken, Error>)
    ensures
        match r {
            Ok(t) => token.errcode == 0 && t.errcode == 0 && t.errmsg@ == token.errmsg@
                && t.access_token@ == token.access_token@ && t.expires_in == token.expires_in
                && t.expires_at == expiry_of(token.expires_in as int, now as int),
            Err(e) => token.errcode != 0 && e@ == ErrorView::Internal(
                "get wecom access token failed, errcode: "@ + number_text(token.errcode as int)
                    + ", errmsg: "@ + token.errmsg@,
            ),
        },
{
    if token.errcode != 0 {
        let mut m = String::from_str("get wecom access token failed, errcode: ");
        m.append(write_number(token.errcode).as_str());
        m.append(", errmsg: ");
        m.append(token.errmsg.as_str());
        return Err(Error::Internal(m));
    }
    let end: u64 = if token.expires_in > u64::MAX - now {
        u64::MAX
    } else {
        token.expires_in + now
    };
    let expires_at: u64 = if end < 10 {
        0
    } else {
        end - 10
    };
    Ok(
        AccessToken {
            errcode: token.errcode,
            errmsg: token.errmsg,
            access_token: token.access_token,
            expires_in: token.expires_in,
            expires_at,
        },
    )
}

/// The access token that was handed out last, if any.
#[derive(Debug)]
pub struct TokenCache {
    token: Option<AccessToken>,
}

impl TokenCache {
    /// The text of the token that is held and the second at which it ends.
    pub closed spec fn held(&self) -> Option<(Seq<char>, int)> {
        match self.token {
            Some(t) => Some((t.access_token@, t.expires_at as int)),
            None => None,
        }
    }

    /// The token to use at the second `now`: the one that is held, unless a
    /// fresh one is asked for or the held one has ended.
    pub open spec fn usable(&self, now: int, refresh: bool) -> Option<Seq<char>> {
        match self.held() {
            Some((text, end)) => if !refresh && end > now {
                Some(text)
            } else {
                None
            },
            None => None,
        }
    }

    /// A cache that holds no token.
    pub fn new() -> (r: TokenCache)
        ensures
            r.held() is None,
    {
        TokenCache { token: None }
    }

    /// The token to use at the second `now`, if the cache holds one that is
    /// still good; with `refresh` it hands out none.
    pub fn get(&self, now: u64, refresh: bool) -> (r: Option<String>)
        ensures
            match r {
                Some(t) => self.usable(now as int, refresh) == Some(t@),
                None => self.usable(now as int, refresh) is None,
            },
    {
        if refresh {
            return None;
        }
        match &self.token {
            Some(t) => if t.expires_at > now {
                Some(t.access_token.clone())
            } else {
                None
            },
            None => None,
        }
    }

    /// Holds `token` from now on, and hands out its text.
    pub fn store(&mut self, token: AccessToken) -> (r: String)
        ensures
            final(self).held() == Some((token.access_token@, token.expires_at as int)),
            r@ == token.access_token@,
    {
        let text = token.access_token.clone();
        self.token = Some(token);
        text
    }
}

} // verus!
