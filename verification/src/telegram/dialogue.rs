//! How the bot answers messages and button presses.
//!
//! Each function takes one event and says what is to be done next; sending,
//! fetching and starting are left to the caller, who comes back with the outcome.

use vstd::prelude::*;

use crate::json::Json;
use crate::numeral::decimal;
use crate::numeral::decimal_text;
use crate::telegram::actions::callback_action;
use crate::telegram::actions::message_action;
use crate::telegram::actions::parse_callback_action;
use crate::telegram::actions::parse_message_action;
use crate::telegram::actions::Action;
use crate::telegram::actions::TelegramAction;
use crate::telegram::menu::build_qualities_inline_markup;
use crate::telegram::menu::encoded;
use crate::telegram::menu::format_qualities_menu;
use crate::telegram::menu::markup_rows;
use crate::telegram::menu::menu_text;
use crate::telegram::menu::qualities_keyboard;
use crate::telegram::state::BotState;
use crate::telegram::state::Operation;
use crate::telegram::state::PendingChoice;
use crate::ytdlp::extract_qualities;
use crate::ytdlp::extract_title;
use crate::ytdlp::offers;
use crate::ytdlp::report_title;
use crate::ytdlp::Qualities;

verus! {

// ---------------------------------------------------------------------------
// Texts
// ---------------------------------------------------------------------------

/// The answer to a request for help.
pub open spec fn help_text() -> Seq<char> {
    "rsdlp Telegram Bot\n\nSend me any media URL (YouTube, Twitter/X, TikTok, etc.) to fetch available qualities and download."@
}

/// The answer to a cancellation.
pub open spec fn cancel_text(cancelled: bool) -> Seq<char> {
    if cancelled {
        "❌ Operation cancelled."@
    } else {
        "Nothing to cancel."@
    }
}

/// The answer to a choice of quality without a media.
pub open spec fn no_pending_text() -> Seq<char> {
    "No pending media URL. Send a URL first!"@
}

/// The answer to an address on a disabled provider.
pub open spec fn disabled_text(domain: Seq<char>) -> Seq<char> {
    "⚠️ Provider Disabled\n\nThis media provider ('"@ + domain
        + "') is currently disabled because processing its streams is a heavy operation that requires intensive CPU and server resources."@
}

/// The message shown while the qualities are fetched.
pub open spec fn fetching_text() -> Seq<char> {
    "🔍 Fetching qualities..."@
}

/// How a chosen quality is called.
pub open spec fn quality_name(res: Option<u64>, abr: Option<u64>) -> Seq<char> {
    match (res, abr) {
        (Some(r), _) => decimal(r as nat) + "p"@,
        (None, Some(a)) => decimal(a as nat) + " kbps audio"@,
        (None, None) => "best quality"@,
    }
}

fn cancel_answer(cancelled: bool) -> (r: String)
    ensures
        r@ == cancel_text(cancelled),
{
    if cancelled {
        String::from_str("❌ Operation cancelled.")
    } else {
        String::from_str("Nothing to cancel.")
    }
}

/// Names a chosen quality.
pub fn describe_quality(res: Option<u64>, abr: Option<u64>) -> (r: String)
    ensures
        r@ == quality_name(res, abr),
{
    match res {
        Some(r) => {
            let mut out = decimal_text(r);
            out.append("p");
            out
        },
        None => match abr {
            Some(a) => {
                let mut out = decimal_text(a);
                out.append(" kbps audio");
                out
            },
            None => String::from_str("best quality"),
        },
    }
}

// ---------------------------------------------------------------------------
// Messages
// ---------------------------------------------------------------------------

/// A download that a user has asked for.
pub struct DownloadJob {
    pub pending: PendingChoice,
    pub res: Option<u64>,
    pub abr: Option<u64>,
    pub desc: String,
}

/// What to do about a message.
pub enum MessageStep<H> {
    /// Nothing.
    Ignore,
    /// Answer with `text`.
    Respond { text: String },
    /// Abort the operations, and answer with `text`.
    Cancel { abort: Vec<Operation<H>>, text: String },
    /// Find out whether `url` is on a disabled provider.
    CheckUrl { url: String },
    /// Answer with `text`, then fetch the report on `url`.
    FetchInfo { url: String, text: String },
    /// Start the download.
    Start { job: DownloadJob },
}

/// `job` is the download of `pending` in the given quality.
pub open spec fn is_job(
    job: DownloadJob,
    pending: PendingChoice,
    res: Option<u64>,
    abr: Option<u64>,
) -> bool {
    &&& job.pending == pending
    &&& job.res == res
    &&& job.abr == abr
    &&& job.desc@ == quality_name(res, abr)
}

/// `post` is `pre` without the choice and the operations of `peer_id`.
pub open spec fn is_cancelled<H, D>(
    pre: BotState<H, D>,
    post: BotState<H, D>,
    peer_id: i64,
) -> bool {
    &&& post.pending@ == pre.pending@.remove(peer_id)
    &&& post.operations(peer_id).len() == 0
    &&& forall|p: i64| p != peer_id ==> #[trigger] post.operations(p) == pre.operations(p)
    &&& post.same_surroundings(&pre)
}

/// `post` is `pre` without the choice of `peer_id`.
pub open spec fn is_chosen<H, D>(pre: BotState<H, D>, post: BotState<H, D>, peer_id: i64) -> bool {
    &&& post.pending@ == pre.pending@.remove(peer_id)
    &&& post.active_operations == pre.active_operations
    &&& post.same_surroundings(&pre)
}

/// A cancellation of `peer_id` finds something in `pre`.
pub open spec fn has_work<H, D>(pre: BotState<H, D>, peer_id: i64) -> bool {
    pre.pending@.contains_key(peer_id) || pre.operations(peer_id).len() > 0
}

/// `step` and `post` are what a message from `peer_id` leads to in `pre`.
pub open spec fn answers_message<H, D>(
    pre: BotState<H, D>,
    post: BotState<H, D>,
    peer_id: i64,
    action: Action,
    step: MessageStep<H>,
) -> bool {
    match action {
        Action::Help => {
            &&& step matches MessageStep::Respond { text }
            &&& text@ == help_text()
            &&& post == pre
        },
        Action::Cancel => {
            &&& step matches MessageStep::Cancel { abort, text }
            &&& abort@ == pre.operations(peer_id)
            &&& text@ == cancel_text(has_work(pre, peer_id))
            &&& is_cancelled(pre, post, peer_id)
        },
        Action::DownloadUrl(address) => {
            &&& step matches MessageStep::CheckUrl { url }
            &&& url@ == address
            &&& post == pre
        },
        Action::SelectQuality(res, abr) => {
            &&& is_chosen(pre, post, peer_id)
            &&& if pre.pending@.contains_key(peer_id) {
                &&& step matches MessageStep::Start { job }
                &&& is_job(job, pre.pending@[peer_id], res, abr)
            } else {
                &&& step matches MessageStep::Respond { text }
                &&& text@ == no_pending_text()
            }
        },
        Action::Unknown => step is Ignore && post == pre,
    }
}

/// Answers a message from `peer_id`.
pub fn handle_message<H, D>(state: &mut BotState<H, D>, peer_id: i64, text: &str) -> (r:
    MessageStep<H>)
    requires
        old(state).wf(),
    ensures
        answers_message(*old(state), *final(state), peer_id, message_action(text@), r),
        final(state).wf(),
{
    match parse_message_action(text) {
        TelegramAction::Help => MessageStep::Respond {
            text: String::from_str(
                "rsdlp Telegram Bot\n\nSend me any media URL (YouTube, Twitter/X, TikTok, etc.) to fetch available qualities and download.",
            ),
        },
        TelegramAction::Cancel => {
            let (cancelled, abort) = state.cancel(&peer_id);
            MessageStep::Cancel { abort, text: cancel_answer(cancelled) }
        },
        TelegramAction::DownloadUrl { url } => MessageStep::CheckUrl { url },
        TelegramAction::SelectQuality { res, abr } => match state.take_pending(&peer_id) {
            Some(pending) => MessageStep::Start {
                job: DownloadJob { pending, res, abr, desc: describe_quality(res, abr) },
            },
            None => MessageStep::Respond {
                text: String::from_str("No pending media URL. Send a URL first!"),
            },
        },
        TelegramAction::Unknown => MessageStep::Ignore,
    }
}

/// Goes on with an address once it is known whether its provider is disabled, and
/// under which entry.
pub fn after_url_check<H>(url: String, disabled: Option<String>) -> (r: MessageStep<H>)
    ensures
        match disabled {
            Some(domain) => r matches MessageStep::Respond { text } && text@ == disabled_text(
                domain@,
            ),
            None => r matches MessageStep::FetchInfo { url: u, text } && u == url && text@
                == fetching_text(),
        },
{
    match disabled {
        Some(domain) => {
            let mut notice = String::from_str(
                "⚠️ Provider Disabled\n\nThis media provider ('",
            );
            notice.append(domain.as_str());
            notice.append(
                "') is currently disabled because processing its streams is a heavy operation that requires intensive CPU and server resources.",
            );
            MessageStep::Respond { text: notice }
        },
        None => MessageStep::FetchInfo {
            url,
            text: String::from_str("🔍 Fetching qualities..."),
        },
    }
}

/// How the status message goes on once the report was fetched.
pub enum InfoStep {
    /// Show `text`.
    Notice { text: String },
    /// Show `text` over the keyboard.
    Menu { text: String, markup: grammers_client::reply_markup::Inline },
}

/// `post` is `pre` with the choice of a quality for `url` left to `peer_id`.
pub open spec fn is_offered<H, D>(
    pre: BotState<H, D>,
    post: BotState<H, D>,
    peer_id: i64,
    url: Seq<char>,
    title: Seq<char>,
) -> bool {
    &&& post.pending@.contains_key(peer_id)
    &&& post.pending@ == pre.pending@.insert(peer_id, post.pending@[peer_id])
    &&& post.pending@[peer_id].url@ == url
    &&& post.pending@[peer_id].title@ == title
    &&& post.active_operations == pre.active_operations
    &&& post.same_surroundings(&pre)
}

/// `step` and `post` are what the given title and qualities of `url` lead to in
/// `pre`.
pub open spec fn presents<H, D>(
    pre: BotState<H, D>,
    post: BotState<H, D>,
    peer_id: i64,
    url: Seq<char>,
    title: Seq<char>,
    q: Qualities,
    step: InfoStep,
) -> bool {
    if q.video@.len() == 0 && q.audio@.len() == 0 {
        &&& step matches InfoStep::Notice { text }
        &&& text@ == "No playable formats found for this URL."@
        &&& post == pre
    } else {
        &&& step matches InfoStep::Menu { text, markup }
        &&& text@ == menu_text(title, q.video@, q.audio@)
        &&& markup_rows(markup) == encoded(qualities_keyboard(q.video@, q.audio@))
        &&& is_offered(pre, post, peer_id, url, title)
    }
}

/// Offers the qualities of `url` to `peer_id`.
pub fn present_qualities<H, D>(
    state: &mut BotState<H, D>,
    peer_id: i64,
    url: String,
    title: String,
    qualities: &Qualities,
) -> (r: InfoStep)
    requires
        old(state).wf(),
    ensures
        presents(*old(state), *final(state), peer_id, url@, title@, *qualities, r),
        final(state).wf(),
{
    if qualities.video.len() == 0 && qualities.audio.len() == 0 {
        return InfoStep::Notice {
            text: String::from_str("No playable formats found for this URL."),
        };
    }
    let text = format_qualities_menu(title.as_str(), qualities);
    let markup = build_qualities_inline_markup(qualities);
    state.offer(peer_id, PendingChoice { url, title });
    InfoStep::Menu { text, markup }
}

/// Goes on once the report on `url` was fetched, or could not be had.
pub fn after_info<H, D>(
    state: &mut BotState<H, D>,
    peer_id: i64,
    url: String,
    info: Option<&Json>,
) -> (r: InfoStep)
    requires
        old(state).wf(),
    ensures
        match info {
            Some(report) => exists|q: Qualities| #[trigger]
                offers(q, report.tree()) && presents(
                    *old(state),
                    *final(state),
                    peer_id,
                    url@,
                    report_title(report.tree()),
                    q,
                    r,
                ),
            None => {
                &&& r matches InfoStep::Notice { text }
                &&& text@ == "Failed to fetch media metadata."@
                &&& *final(state) == *old(state)
            },
        },
        final(state).wf(),
{
    match info {
        Some(report) => {
            let title = extract_title(report);
            let qualities = extract_qualities(report);
            let step = present_qualities(state, peer_id, url, title, &qualities);
            assert(offers(qualities, report.tree()));
            step
        },
        None => InfoStep::Notice { text: String::from_str("Failed to fetch media metadata.") },
    }
}

// ---------------------------------------------------------------------------
// Button presses
// ---------------------------------------------------------------------------

/// What to do about a button press.
pub enum CallbackStep<H> {
    /// Acknowledge it.
    Acknowledge,
    /// Answer it with an alert.
    Alert { text: String },
    /// Abort the operations, and put `text` in place of the message.
    Cancel { abort: Vec<Operation<H>>, text: String },
    /// Acknowledge it and start the download.
    Start { job: DownloadJob },
}

/// `step` and `post` are what a button press by `peer_id` leads to in `pre`.
pub open spec fn answers_callback<H, D>(
    pre: BotState<H, D>,
    post: BotState<H, D>,
    peer_id: i64,
    action: Action,
    step: CallbackStep<H>,
) -> bool {
    match action {
        Action::Cancel => {
            &&& step matches CallbackStep::Cancel { abort, text }
            &&& abort@ == pre.operations(peer_id)
            &&& text@ == cancel_text(has_work(pre, peer_id))
            &&& is_cancelled(pre, post, peer_id)
        },
        Action::SelectQuality(res, abr) => {
            &&& is_chosen(pre, post, peer_id)
            &&& if pre.pending@.contains_key(peer_id) {
                &&& step matches CallbackStep::Start { job }
                &&& is_job(job, pre.pending@[peer_id], res, abr)
            } else {
                &&& step matches CallbackStep::Alert { text }
                &&& text@ == no_pending_text()
            }
        },
        _ => step is Acknowledge && post == pre,
    }
}

/// Answers a button press by `peer_id`.
pub fn handle_callback_query<H, D>(
    state: &mut BotState<H, D>,
    peer_id: i64,
    data: &[u8],
) -> (r: CallbackStep<H>)
    requires
        old(state).wf(),
    ensures
        answers_callback(*old(state), *final(state), peer_id, callback_action(data@), r),
        final(state).wf(),
{
    match parse_callback_action(data) {
        TelegramAction::Cancel => {
            let (cancelled, abort) = state.cancel(&peer_id);
            CallbackStep::Cancel { abort, text: cancel_answer(cancelled) }
        },
        TelegramAction::SelectQuality { res, abr } => match state.take_pending(&peer_id) {
            Some(pending) => CallbackStep::Start {
                job: DownloadJob { pending, res, abr, desc: describe_quality(res, abr) },
            },
            None => CallbackStep::Alert {
                text: String::from_str("No pending media URL. Send a URL first!"),
            },
        },
        _ => CallbackStep::Acknowledge,
    }
}

} // verus!
