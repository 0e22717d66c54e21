//! Connection lifecycle manager and update normalizer.
//!
//! The single live backend session is modeled as an explicit state holder:
//! `start` is the single-flight guard, `stop` is idempotent, and every query
//! is preceded by the `NotStarted` check. The raw update stream is modeled as
//! a closed enum with an explicit default-discard arm, so new backend update
//! kinds cannot silently change the core's behavior.

use vstd::prelude::*;

use crate::models::{File, FileView, NewChannel, Post, PostView};
use crate::models::str_eq;
use crate::models::{views_of_channels, views_of_files, views_of_posts};
use crate::ServiceError;

pub mod parsers;

use parsers::{FileInfo, RawMessageContent};
use parsers::{parse_message_content, parse_spec};

verus! {

/// A normalized domain event, as produced by the update normalizer and
/// consumed by the synchronizer.
#[derive(Debug)]
pub enum NewUpdate {
    Post(Post),
    Channel(NewChannel),
    File(File),
}

/// Abstract value of a domain event.
pub enum EventView {
    Post(PostView),
    Channel(crate::models::NewChannelView),
    File(FileView),
}

impl View for NewUpdate {
    type V = EventView;

    open spec fn view(&self) -> EventView {
        match self {
            NewUpdate::Post(p) => EventView::Post(p@),
            NewUpdate::Channel(c) => EventView::Channel(c@),
            NewUpdate::File(f) => EventView::File(f@),
        }
    }
}

/// Abstract values of a sequence of domain events.
pub open spec fn views_of_events(s: Seq<NewUpdate>) -> Seq<EventView> {
    s.map_values(|u: NewUpdate| u@)
}

/// The kind of a chat reported by the backend. Only supergroups flagged as
/// channels are of interest to this core.
#[derive(Clone, Copy, Debug, PartialEq, Eq, Structural)]
pub enum ChatKind {
    Unknown,
    BasicGroup,
    Private,
    Secret,
    Supergroup { is_channel: bool },
}

/// A chat as reported by the backend's search or catalog calls.
#[derive(Debug)]
pub struct RawChat {
    pub id: i64,
    pub title: String,
    pub username: String,
    pub kind: ChatKind,
}

/// A raw message as fetched from a chat's history.
#[derive(Debug)]
pub struct RawMessage {
    pub id: i64,
    pub chat_id: i64,
    pub date: i32,
    pub content: RawMessageContent,
}

/// A raw update delivered by the backend's live stream. Kinds outside the
/// core's scope are listed explicitly and discarded by the normalizer.
#[derive(Debug)]
pub enum RawUpdate {
    ChatPhoto,
    ChatTitle,
    File { file: FileInfo, downloading_completed: bool },
    MessageContent,
    NewChat,
    NewMessage { message: RawMessage, is_channel_post: bool },
    Poll,
    Other,
}

/// The file record derived from raw backend file data: an empty path means
/// the download has not completed, so the stored path is absent.
pub open spec fn file_of(fi: FileInfo, post_id: int) -> FileView {
    FileView {
        local_path: if fi.local_path@.len() == 0 {
            Option::None
        } else {
            Option::Some(fi.local_path@)
        },
        remote_file: fi.id as int,
        remote_id: fi.unique_id@,
        telegram_post_id: post_id,
    }
}

/// Builds the file record referenced by the post `post_id` from raw backend
/// file data.
pub fn new_file(file: &FileInfo, post_id: i64) -> (r: File)
    ensures
        r@ == file_of(*file, post_id as int),
{
    let local_path = if file.local_path.as_str().is_empty() {
        Option::None
    } else {
        Option::Some(file.local_path.clone())
    };
    File {
        local_path,
        remote_file: file.id,
        remote_id: file.unique_id.clone(),
        telegram_post_id: post_id,
    }
}

/// Whether the backend reported this chat as a broadcast channel: only a
/// supergroup flagged as a channel qualifies; private chats, basic groups
/// and secret chats never do.
pub fn is_channel(chat: &RawChat) -> (r: bool)
    ensures
        r == spec_is_channel(chat.kind),
{
    match chat.kind {
        ChatKind::Unknown => false,
        ChatKind::BasicGroup => false,
        ChatKind::Private => false,
        ChatKind::Secret => false,
        ChatKind::Supergroup { is_channel } => is_channel,
    }
}

/// Spec form of `is_channel`.
pub open spec fn spec_is_channel(kind: ChatKind) -> bool {
    kind matches ChatKind::Supergroup { is_channel } && is_channel
}

/// The channel record announced by a chat, under the handle `channel_name`.
pub fn new_channel(chat: &RawChat, channel_name: &str) -> (r: NewChannel)
    ensures
        r@.title == chat.title@,
        r@.telegram_id == chat.id as int,
        r@.username == channel_name@,
{
    NewChannel {
        title: chat.title.clone(),
        telegram_id: chat.id,
        username: String::from_str(channel_name),
    }
}

/// Whether a reported chat is accepted for the query handle: it must be of
/// channel kind and carry exactly that handle.
pub open spec fn is_search_match(channel_name: Seq<char>, chat: RawChat) -> bool {
    spec_is_channel(chat.kind) && chat.username@ == channel_name
}

/// The channel record built for an accepted search match.
pub open spec fn accepted_channel(c: NewChannel, chat: RawChat, channel_name: Seq<char>) -> bool {
    &&& c@.title == chat.title@
    &&& c@.telegram_id == chat.id as int
    &&& c@.username == channel_name
}

/// What a search decision must return for a given backend result: the
/// accepted channel for an exact channel-kind match, nothing otherwise.
pub open spec fn search_outcome(
    channel_name: Seq<char>,
    found: Option<RawChat>,
    r: Option<NewChannel>,
) -> bool {
    match found {
        Option::None => r is None,
        Option::Some(chat) => {
            if is_search_match(channel_name, chat) {
                r matches Option::Some(c) && accepted_channel(c, chat, channel_name)
            } else {
                r is None
            }
        },
    }
}

/// The decision part of a channel search: the backend's match is accepted
/// only if it is of channel kind and its handle equals the query exactly.
pub fn search_match(channel_name: &str, found: Option<RawChat>) -> (r: Option<NewChannel>)
    ensures
        search_outcome(channel_name@, found, r),
{
    match found {
        Option::None => Option::None,
        Option::Some(chat) => {
            if is_channel(&chat) && str_eq(chat.username.as_str(), channel_name) {
                Option::Some(new_channel(&chat, channel_name))
            } else {
                Option::None
            }
        },
    }
}

/// The post record a channel-post message normalizes to: no title or link
/// yet, plain content as extracted, owned by the chat `chat_id`.
pub open spec fn post_view_of(id: int, date: int, chat_id: int, content: Seq<char>) -> PostView {
    PostView {
        title: Option::None,
        link: Seq::empty(),
        telegram_id: id,
        pub_date: date,
        content,
        chat_id,
    }
}

/// What the normalizer yields for one raw update, in emission order. Only a
/// completed file download and a new channel-post message translate; a post
/// with an embedded image is preceded by the image's file event. Everything
/// else is discarded silently.
pub open spec fn normalize_spec(u: RawUpdate) -> Seq<EventView> {
    match u {
        RawUpdate::File { file, downloading_completed } => {
            if downloading_completed {
                seq![EventView::File(file_of(file, 0))]
            } else {
                Seq::empty()
            }
        },
        RawUpdate::NewMessage { message, is_channel_post } => {
            if !is_channel_post {
                Seq::empty()
            } else {
                match parse_spec(message.content, message.id as int) {
                    Option::None => Seq::empty(),
                    Option::Some((content, file)) => {
                        let post = EventView::Post(
                            post_view_of(
                                message.id as int,
                                message.date as int,
                                message.chat_id as int,
                                content,
                            ),
                        );
                        match file {
                            Option::Some(f) => seq![EventView::File(f), post],
                            Option::None => seq![post],
                        }
                    },
                }
            }
        },
        _ => Seq::empty(),
    }
}

/// Maps one raw update to its domain events, in delivery order: the pure
/// core of the live update reader.
pub fn normalize_update(u: &RawUpdate) -> (r: Vec<NewUpdate>)
    ensures
        views_of_events(r@) == normalize_spec(*u),
{
    let mut r: Vec<NewUpdate> = Vec::new();
    match u {
        RawUpdate::File { file, downloading_completed } => {
            if *downloading_completed {
                r.push(NewUpdate::File(new_file(file, 0)));
            }
        },
        RawUpdate::NewMessage { message, is_channel_post } => {
            if *is_channel_post {
                match parse_message_content(&message.content, message.id) {
                    Option::None => {},
                    Option::Some((text, file)) => {
                        match file {
                            Option::Some(f) => { r.push(NewUpdate::File(f)); },
                            Option::None => {},
                        }
                        r.push(
                            NewUpdate::Post(
                                Post {
                                    title: Option::None,
                                    link: String::new(),
                                    telegram_id: message.id,
                                    pub_date: message.date,
                                    content: text,
                                    chat_id: message.chat_id,
                                },
                            ),
                        );
                    },
                }
            }
        },
        _ => {},
    }
    proof {
        assert(views_of_events(r@) =~= normalize_spec(*u));
    }
    r
}

/// The post records that normalizing a history window yields, from message
/// index `i` on: a message whose content fails extraction contributes no
/// post and is skipped.
pub open spec fn history_posts_from(ms: Seq<RawMessage>, chat_id: int, i: int) -> Seq<PostView>
    decreases ms.len() - i,
{
    if i < 0 || i >= ms.len() {
        Seq::empty()
    } else {
        let rest = history_posts_from(ms, chat_id, i + 1);
        match parse_spec(ms[i].content, ms[i].id as int) {
            Option::None => rest,
            Option::Some((content, _)) => seq![
                post_view_of(ms[i].id as int, ms[i].date as int, chat_id, content),
            ] + rest,
        }
    }
}

/// The embedded files that normalizing a history window yields, from message
/// index `i` on.
pub open spec fn history_files_from(ms: Seq<RawMessage>, i: int) -> Seq<FileView>
    decreases ms.len() - i,
{
    if i < 0 || i >= ms.len() {
        Seq::empty()
    } else {
        let rest = history_files_from(ms, i + 1);
        match parse_spec(ms[i].content, ms[i].id as int) {
            Option::Some((_, Option::Some(f))) => seq![f] + rest,
            _ => rest,
        }
    }
}

/// Runs every message of a fetched history window through the normalizer's
/// content extraction, collecting the posts (owned by `chat_id`) and the
/// embedded files to download. A message that fails extraction is skipped
/// and never aborts the batch.
pub fn history_to_posts(chat_id: i64, messages: &Vec<RawMessage>) -> (r: (Vec<Post>, Vec<File>))
    ensures
        views_of_posts(r.0@) == history_posts_from(messages@, chat_id as int, 0),
        views_of_files(r.1@) == history_files_from(messages@, 0),
{
    let ghost ms: Seq<RawMessage> = messages@;
    let mut posts: Vec<Post> = Vec::new();
    let mut files: Vec<File> = Vec::new();
    let n: usize = messages.len();
    let mut i: usize = 0;
    while i < n
        invariant
            n == messages.len(),
            ms == messages@,
            0 <= i <= n,
            views_of_posts(posts@) + history_posts_from(ms, chat_id as int, i as int)
                == history_posts_from(ms, chat_id as int, 0),
            views_of_files(files@) + history_files_from(ms, i as int)
                == history_files_from(ms, 0),
        decreases n - i,
    {
        let m = &messages[i];
        match parse_message_content(&m.content, m.id) {
            Option::None => {
                proof {
                    assert(history_posts_from(ms, chat_id as int, i as int)
                        == history_posts_from(ms, chat_id as int, i + 1 as int));
                    assert(history_files_from(ms, i as int)
                        == history_files_from(ms, i + 1 as int));
                }
            },
            Option::Some((text, file)) => {
                let ghost posts_before: Seq<Post> = posts@;
                let ghost files_before: Seq<File> = files@;
                match file {
                    Option::Some(f) => {
                        files.push(f);
                        proof {
                            assert(views_of_files(files@)
                                =~= views_of_files(files_before).push(files@.last()@));
                            assert(views_of_files(files@) + history_files_from(ms, i + 1 as int)
                                =~= views_of_files(files_before) + history_files_from(
                                ms,
                                i as int,
                            ));
                        }
                    },
                    Option::None => {
                        proof {
                            assert(history_files_from(ms, i as int)
                                == history_files_from(ms, i + 1 as int));
                        }
                    },
                }
                posts.push(
                    Post {
                        title: Option::None,
                        link: String::new(),
                        telegram_id: m.id,
                        pub_date: m.date,
                        content: text,
                        chat_id,
                    },
                );
                proof {
                    assert(views_of_posts(posts@)
                        =~= views_of_posts(posts_before).push(posts@.last()@));
                    assert(views_of_posts(posts@) + history_posts_from(
                        ms,
                        chat_id as int,
                        i + 1 as int,
                    ) =~= views_of_posts(posts_before) + history_posts_from(
                        ms,
                        chat_id as int,
                        i as int,
                    ));
                }
            },
        }
        i = i + 1;
    }
    proof {
        assert(views_of_posts(posts@) =~= history_posts_from(ms, chat_id as int, 0));
        assert(views_of_files(files@) =~= history_files_from(ms, 0));
    }
    (posts, files)
}

/// The channel records of a chat catalog, from index `i` on: one for each
/// chat of channel kind, under its own reported handle.
pub open spec fn channels_from(cs: Seq<RawChat>, i: int) -> Seq<crate::models::NewChannelView>
    decreases cs.len() - i,
{
    if i < 0 || i >= cs.len() {
        Seq::empty()
    } else {
        let rest = channels_from(cs, i + 1);
        if spec_is_channel(cs[i].kind) {
            seq![
                crate::models::NewChannelView {
                    title: cs[i].title@,
                    telegram_id: cs[i].id as int,
                    username: cs[i].username@,
                },
            ] + rest
        } else {
            rest
        }
    }
}

/// Keeps only the chats of channel kind from a full chat catalog, as channel
/// records: the pure part of the full-catalog synchronization sweep.
pub fn filter_channels(chats: &Vec<RawChat>) -> (r: Vec<NewChannel>)
    ensures
        views_of_channels(r@) == channels_from(chats@, 0),
{
    let ghost cs: Seq<RawChat> = chats@;
    let mut r: Vec<NewChannel> = Vec::new();
    let n: usize = chats.len();
    let mut i: usize = 0;
    while i < n
        invariant
            n == chats.len(),
            cs == chats@,
            0 <= i <= n,
            views_of_channels(r@) + channels_from(cs, i as int) == channels_from(cs, 0),
        decreases n - i,
    {
        let chat = &chats[i];
        if is_channel(chat) {
            let ghost before: Seq<NewChannel> = r@;
            r.push(new_channel(chat, chat.username.as_str()));
            proof {
                assert(views_of_channels(r@) =~= views_of_channels(before).push(r@.last()@));
                assert(views_of_channels(r@) + channels_from(cs, i + 1 as int)
                    =~= views_of_channels(before) + channels_from(cs, i as int));
            }
        } else {
            proof {
                assert(channels_from(cs, i as int) == channels_from(cs, i + 1 as int));
            }
        }
        i = i + 1;
    }
    proof {
        assert(views_of_channels(r@) =~= channels_from(cs, 0));
    }
    r
}

/// Owns the single live backend session. `started` reflects whether the
/// session state holder is occupied; the authentication worker, the client
/// handle and the live stream live with the caller that drives the backend.
#[derive(Debug)]
pub struct TelegramService {
    api_hash: String,
    app_id: i32,
    phone_number: String,
    started: bool,
}

impl TelegramService {
    /// Whether a session is active.
    pub closed spec fn is_started(&self) -> bool {
        self.started
    }

    /// The credential fields, unchanged by lifecycle transitions.
    pub closed spec fn spec_credentials(&self) -> (Seq<char>, int, Seq<char>) {
        (self.api_hash@, self.app_id as int, self.phone_number@)
    }

    /// A fresh service: no session is active.
    pub fn new(api_hash: String, app_id: i32, phone_number: String) -> (s: Self)
        ensures
            !s.is_started(),
            s.spec_credentials() == (api_hash@, app_id as int, phone_number@),
    {
        TelegramService { api_hash, app_id, phone_number, started: false }
    }

    /// Establishes the single session. Fails with `AlreadyStarted`, leaving
    /// the active session untouched, if one is already active: this is the
    /// single-flight guard.
    pub fn start(&mut self) -> (r: Result<(), ServiceError>)
        ensures
            !old(self).is_started() ==> r is Ok && final(self).is_started(),
            old(self).is_started() ==> {
                &&& r == Err::<(), ServiceError>(ServiceError::AlreadyStarted)
                &&& *final(self) == *old(self)
            },
            final(self).spec_credentials() == old(self).spec_credentials(),
    {
        if self.started {
            Err(ServiceError::AlreadyStarted)
        } else {
            self.started = true;
            Ok(())
        }
    }

    /// Signals the session to terminate and clears the state holder so a
    /// later `start` is legal. Idempotent: stopping a stopped service is a
    /// no-op.
    pub fn stop(&mut self)
        ensures
            !final(self).is_started(),
            final(self).spec_credentials() == old(self).spec_credentials(),
    {
        self.started = false;
    }

    /// The guard run before every read-only query: fails with `NotStarted`
    /// while no session is active.
    pub fn ensure_started(&self) -> (r: Result<(), ServiceError>)
        ensures
            r is Ok <==> self.is_started(),
            r is Err ==> r == Err::<(), ServiceError>(ServiceError::NotStarted),
    {
        if self.started {
            Ok(())
        } else {
            Err(ServiceError::NotStarted)
        }
    }

    /// Decides a channel search: fails with `NotStarted` while no session is
    /// active; otherwise accepts the backend's result only for an exact
    /// channel-kind, exact-handle match.
    pub fn search_channel(&self, channel_name: &str, found: Option<RawChat>) -> (r: Result<
        Option<NewChannel>,
        ServiceError,
    >)
        ensures
            !self.is_started() ==> r == Err::<Option<NewChannel>, ServiceError>(
                ServiceError::NotStarted,
            ),
            self.is_started() ==> (r matches Ok(o) && search_outcome(channel_name@, found, o)),
    {
        match self.ensure_started() {
            Err(e) => Err(e),
            Ok(()) => Ok(search_match(channel_name, found)),
        }
    }

    /// Normalizes a fetched history window: fails with `NotStarted` while no
    /// session is active; otherwise yields the surviving posts (owned by
    /// `chat_id`) and the embedded files to download, skipping any message
    /// that fails extraction.
    pub fn get_channel_history(&self, chat_id: i64, messages: &Vec<RawMessage>) -> (r: Result<
        (Vec<Post>, Vec<File>),
        ServiceError,
    >)
        ensures
            !self.is_started() ==> r == Err::<(Vec<Post>, Vec<File>), ServiceError>(
                ServiceError::NotStarted,
            ),
            self.is_started() ==> (r matches Ok(out)
                && views_of_posts(out.0@) == history_posts_from(messages@, chat_id as int, 0)
                && views_of_files(out.1@) == history_files_from(messages@, 0)),
    {
        match self.ensure_started() {
            Err(e) => Err(e),
            Ok(()) => Ok(history_to_posts(chat_id, messages)),
        }
    }

    /// Admits a fire-and-forget download request: fails with `NotStarted`
    /// while no session is active; completion is observed later on the live
    /// event stream, never through this call.
    pub fn download_file(&self, file_id: i32) -> (r: Result<i32, ServiceError>)
        ensures
            !self.is_started() ==> r == Err::<i32, ServiceError>(ServiceError::NotStarted),
            self.is_started() ==> r == Ok::<i32, ServiceError>(file_id),
    {
        match self.ensure_started() {
            Err(e) => Err(e),
            Ok(()) => Ok(file_id),
        }
    }

    /// Decides the full-catalog sweep: fails with `NotStarted` while no
    /// session is active; otherwise keeps the chats of channel kind.
    pub fn get_all_channels(&self, chats: &Vec<RawChat>) -> (r: Result<
        Vec<NewChannel>,
        ServiceError,
    >)
        ensures
            !self.is_started() ==> r == Err::<Vec<NewChannel>, ServiceError>(
                ServiceError::NotStarted,
            ),
            self.is_started() ==> (r matches Ok(cs) && views_of_channels(cs@) == channels_from(
                chats@,
                0,
            )),
    {
        match self.ensure_started() {
            Err(e) => Err(e),
            Ok(()) => Ok(filter_channels(chats)),
        }
    }
}

/// The authentication protocol's states, as prompted by the backend.
#[derive(Clone, Copy, Debug, PartialEq, Eq, Structural)]
pub enum AuthState {
    WaitPhoneNumber,
    WaitCode,
    WaitEncryptionKey,
    WaitPassword,
    WaitOtherDeviceConfirmation,
    WaitRegistration,
    Ready,
}

/// What the credential provider answers to an authentication prompt.
#[derive(Debug)]
pub enum AuthAction {
    /// Answer the prompt with this value.
    Provide(String),
    /// The value must be read from the operator's console.
    AskOperator,
    /// The state is not supported for an already-registered account; the
    /// handshake must fail.
    Fail,
    /// The handshake is complete.
    Complete,
}

/// Resolves authentication prompts from preconfigured credentials. States
/// that would register a new account or confirm another device are fatal by
/// design: this system assumes an already-registered account.
#[derive(Debug)]
pub struct AuthHandler {
    encryption_key: String,
    phone_number: String,
}

impl AuthHandler {
    /// The preconfigured credential fields.
    pub closed spec fn spec_keys(&self) -> (Seq<char>, Seq<char>) {
        (self.encryption_key@, self.phone_number@)
    }

    pub fn new(encryption_key: &str, phone_number: &str) -> (h: Self)
        ensures
            h.spec_keys() == (encryption_key@, phone_number@),
    {
        AuthHandler {
            encryption_key: String::from_str(encryption_key),
            phone_number: String::from_str(phone_number),
        }
    }

    /// One transition of the authentication state machine: each prompt state
    /// has exactly one answer, and `Ready` is the single terminal state.
    pub fn respond(&self, state: &AuthState) -> (a: AuthAction)
        ensures
            match *state {
                AuthState::WaitPhoneNumber => a matches AuthAction::Provide(v)
                    && v@ == self.spec_keys().1,
                AuthState::WaitEncryptionKey => a matches AuthAction::Provide(v)
                    && v@ == self.spec_keys().0,
                AuthState::WaitCode => a is AskOperator,
                AuthState::WaitPassword => a is Fail,
                AuthState::WaitOtherDeviceConfirmation => a is Fail,
                AuthState::WaitRegistration => a is Fail,
                AuthState::Ready => a is Complete,
            },
    {
        match state {
            AuthState::WaitPhoneNumber => AuthAction::Provide(self.phone_number.clone()),
            AuthState::WaitEncryptionKey => AuthAction::Provide(self.encryption_key.clone()),
            AuthState::WaitCode => AuthAction::AskOperator,
            AuthState::WaitPassword => AuthAction::Fail,
            AuthState::WaitOtherDeviceConfirmation => AuthAction::Fail,
            AuthState::WaitRegistration => AuthAction::Fail,
            AuthState::Ready => AuthAction::Complete,
        }
    }
}

} // verus!
