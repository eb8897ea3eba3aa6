//! Sending a notice to a Telegram chat: the library composes the request; the
//! program around it sends it.

use vstd::prelude::*;
use crate::json::{json_str_field, payload_str};
use crate::registry::{ActionContext, HookSignal};

verus! {

/// Posts a notice about each move to a Telegram chat.
pub struct SendTelegramAction {
    pub bot_token: String,
    pub default_chat_id: String,
}

/// A `sendMessage` request to the Telegram bot API.
pub struct TelegramRequest {
    pub url: String,
    pub chat_id: String,
    pub text: String,
    pub parse_mode: String,
}

/// The chat a notice goes to: the payload's `chat_id`, else the default.
pub open spec fn notice_chat(default_chat: Seq<char>, payload: Seq<char>) -> Seq<char> {
    match json_str_field(payload, "chat_id"@) {
        Some(c) => c,
        None => default_chat,
    }
}

/// The text of a notice: the move, then the payload's `text` (or a
/// placeholder when it has none).
pub open spec fn notice_text(ctx: ActionContext) -> Seq<char> {
    let body = match json_str_field(ctx.payload@, "text"@) {
        Some(t) => t,
        None => "(message vide)"@,
    };
    "\u{1f504} Workflow **"@ + ctx.workflow_id@ + "**\nObjet `"@ + ctx.object_id@ + "` : `"@
        + ctx.current_state@ + "` \u{2192} `"@ + ctx.target_state@ + "`\n\n"@ + body
}

/// The address of the `sendMessage` method for the bot `token`.
pub open spec fn send_message_url(token: Seq<char>) -> Seq<char> {
    "https://api.telegram.org/bot"@ + token + "/sendMessage"@
}

/// The answer to a hook once the request was sent: `Continue` when Telegram
/// accepted it, else an error naming the HTTP status and the reply's body.
pub open spec fn notice_outcome(success: bool, status: Seq<char>, body: Seq<char>) -> Result<(), Seq<char>> {
    if success {
        Ok(())
    } else {
        Err("Telegram HTTP "@ + status + ": "@ + body)
    }
}

impl SendTelegramAction {
    pub fn new(bot_token: String, default_chat_id: String) -> (r: Self)
        ensures
            r.bot_token == bot_token,
            r.default_chat_id == default_chat_id,
    {
        SendTelegramAction { bot_token, default_chat_id }
    }

    /// The name the action is registered under.
    pub fn name(&self) -> (s: &'static str)
        ensures
            s@ == "send_telegram"@,
    {
        "send_telegram"
    }

    /// The request that announces the move of `ctx`, in Markdown.
    pub fn prepare(&self, ctx: &ActionContext) -> (r: TelegramRequest)
        ensures
            r.url@ == send_message_url(self.bot_token@),
            r.chat_id@ == notice_chat(self.default_chat_id@, ctx.payload@),
            r.text@ == notice_text(*ctx),
            r.parse_mode@ == "Markdown"@,
    {
        let chat_id = match payload_str(ctx.payload.as_str(), "chat_id") {
            Some(c) => c,
            None => self.default_chat_id.clone(),
        };
        let body = match payload_str(ctx.payload.as_str(), "text") {
            Some(t) => t,
            None => String::from_str("(message vide)"),
        };
        let mut text = String::from_str("\u{1f504} Workflow **");
        text.append(ctx.workflow_id.as_str());
        text.append("**\nObjet `");
        text.append(ctx.object_id.as_str());
        text.append("` : `");
        text.append(ctx.current_state.as_str());
        text.append("` \u{2192} `");
        text.append(ctx.target_state.as_str());
        text.append("`\n\n");
        text.append(body.as_str());
        let mut url = String::from_str("https://api.telegram.org/bot");
        url.append(self.bot_token.as_str());
        url.append("/sendMessage");
        TelegramRequest { url, chat_id, text, parse_mode: String::from_str("Markdown") }
    }

    /// The answer to the hook once the request was sent: see `notice_outcome`.
    pub fn outcome(&self, success: bool, status: &str, body: &str) -> (r: Result<HookSignal, String>)
        ensures
            match notice_outcome(success, status@, body@) {
                Ok(()) => r == Ok::<HookSignal, String>(HookSignal::Continue),
                Err(m) => r matches Err(e) && e@ == m,
            },
    {
        if success {
            Ok(HookSignal::Continue)
        } else {
            let mut m = String::from_str("Telegram HTTP ");
            m.append(status);
            m.append(": ");
            m.append(body);
            Err(m)
        }
    }
}

} // verus!
