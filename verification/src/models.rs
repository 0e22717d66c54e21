//! Domain records: channels, posts and media files, as the synchronizer
//! persists them, together with their mathematical views.

use vstd::prelude::*;

verus! {

/// Backend-assigned identifier of a message.
pub type TelegramPostId = i64;

/// Backend-assigned identifier of a chat.
pub type TelegramChatId = i64;

/// Abstract value of an optional string: an optional sequence of characters.
pub open spec fn opt_str_view(o: Option<String>) -> Option<Seq<char>> {
    match o {
        Option::None => Option::None,
        Option::Some(s) => Option::Some(s@),
    }
}

/// A post authored in a channel, keyed by `(telegram_id, chat_id)`.
#[derive(Debug)]
pub struct Post {
    pub title: Option<String>,
    pub link: String,
    pub telegram_id: TelegramPostId,
    pub pub_date: i32,
    pub content: String,
    pub chat_id: TelegramChatId,
}

/// Abstract value of a `Post`.
pub struct PostView {
    pub title: Option<Seq<char>>,
    pub link: Seq<char>,
    pub telegram_id: int,
    pub pub_date: int,
    pub content: Seq<char>,
    pub chat_id: int,
}

impl View for Post {
    type V = PostView;

    open spec fn view(&self) -> PostView {
        PostView {
            title: opt_str_view(self.title),
            link: self.link@,
            telegram_id: self.telegram_id as int,
            pub_date: self.pub_date as int,
            content: self.content@,
            chat_id: self.chat_id as int,
        }
    }
}

impl Post {
    pub fn title(&self) -> (r: &Option<String>)
        ensures
            r == &self.title,
    {
        &self.title
    }

    pub fn link(&self) -> (r: &str)
        ensures
            r@ == self.link@,
    {
        self.link.as_str()
    }

    pub fn telegram_id(&self) -> (r: TelegramPostId)
        ensures
            r == self.telegram_id,
    {
        self.telegram_id
    }

    pub fn pub_date(&self) -> (r: i32)
        ensures
            r == self.pub_date,
    {
        self.pub_date
    }

    pub fn content(&self) -> (r: &str)
        ensures
            r@ == self.content@,
    {
        self.content.as_str()
    }

    pub fn chat_id(&self) -> (r: TelegramChatId)
        ensures
            r == self.chat_id,
    {
        self.chat_id
    }
}

impl Clone for Post {
    fn clone(&self) -> (r: Self)
        ensures
            r@ == self@,
    {
        Post {
            title: clone_opt_string(&self.title),
            link: self.link.clone(),
            telegram_id: self.telegram_id,
            pub_date: self.pub_date,
            content: self.content.clone(),
            chat_id: self.chat_id,
        }
    }
}

/// A channel as first reported by the backend, before it has a stored row.
#[derive(Debug)]
pub struct NewChannel {
    pub title: String,
    pub telegram_id: TelegramChatId,
    pub username: String,
}

/// Abstract value of a `NewChannel`.
pub struct NewChannelView {
    pub title: Seq<char>,
    pub telegram_id: int,
    pub username: Seq<char>,
}

impl View for NewChannel {
    type V = NewChannelView;

    open spec fn view(&self) -> NewChannelView {
        NewChannelView {
            title: self.title@,
            telegram_id: self.telegram_id as int,
            username: self.username@,
        }
    }
}

impl Clone for NewChannel {
    fn clone(&self) -> (r: Self)
        ensures
            r@ == self@,
    {
        NewChannel {
            title: self.title.clone(),
            telegram_id: self.telegram_id,
            username: self.username.clone(),
        }
    }
}

/// A stored channel record; `username` is the unique lookup handle.
#[derive(Debug)]
pub struct Channel {
    pub id: i64,
    pub title: String,
    pub username: String,
    pub telegram_id: TelegramChatId,
}

/// Abstract value of a `Channel`.
pub struct ChannelView {
    pub id: int,
    pub title: Seq<char>,
    pub username: Seq<char>,
    pub telegram_id: int,
}

impl View for Channel {
    type V = ChannelView;

    open spec fn view(&self) -> ChannelView {
        ChannelView {
            id: self.id as int,
            title: self.title@,
            username: self.username@,
            telegram_id: self.telegram_id as int,
        }
    }
}

impl Clone for Channel {
    fn clone(&self) -> (r: Self)
        ensures
            r@ == self@,
    {
        Channel {
            id: self.id,
            title: self.title.clone(),
            username: self.username.clone(),
            telegram_id: self.telegram_id,
        }
    }
}

/// A media file referenced by a post. `remote_id` is the stable identifier
/// that survives across sessions; `remote_file` is the transient handle used
/// to request a download; `local_path` is set once the download completed.
/// A `telegram_post_id` of zero means the owning post is not known yet.
#[derive(Debug)]
pub struct File {
    pub local_path: Option<String>,
    pub remote_file: i32,
    pub remote_id: String,
    pub telegram_post_id: TelegramPostId,
}

/// Abstract value of a `File`.
pub struct FileView {
    pub local_path: Option<Seq<char>>,
    pub remote_file: int,
    pub remote_id: Seq<char>,
    pub telegram_post_id: int,
}

impl View for File {
    type V = FileView;

    open spec fn view(&self) -> FileView {
        FileView {
            local_path: opt_str_view(self.local_path),
            remote_file: self.remote_file as int,
            remote_id: self.remote_id@,
            telegram_post_id: self.telegram_post_id as int,
        }
    }
}

impl Clone for File {
    fn clone(&self) -> (r: Self)
        ensures
            r@ == self@,
    {
        File {
            local_path: clone_opt_string(&self.local_path),
            remote_file: self.remote_file,
            remote_id: self.remote_id.clone(),
            telegram_post_id: self.telegram_post_id,
        }
    }
}

impl File {
    /// Field-by-field comparison, used to skip redundant persistence writes.
    pub fn same_fields(&self, other: &File) -> (r: bool)
        ensures
            r <==> self@ == other@,
    {
        let paths_equal = match (&self.local_path, &other.local_path) {
            (Option::None, Option::None) => true,
            (Option::Some(a), Option::Some(b)) => *a == *b,
            _ => false,
        };
        proof {
            assert(paths_equal <==> self@.local_path == other@.local_path);
        }
        paths_equal && self.remote_file == other.remote_file
            && self.remote_id == other.remote_id
            && self.telegram_post_id == other.telegram_post_id
    }
}

/// Abstract values of a sequence of posts.
pub open spec fn views_of_posts(s: Seq<Post>) -> Seq<PostView> {
    s.map_values(|p: Post| p@)
}

/// Abstract values of a sequence of files.
pub open spec fn views_of_files(s: Seq<File>) -> Seq<FileView> {
    s.map_values(|f: File| f@)
}

/// Abstract values of a sequence of new channels.
pub open spec fn views_of_channels(s: Seq<NewChannel>) -> Seq<NewChannelView> {
    s.map_values(|c: NewChannel| c@)
}

/// Abstract values of a sequence of stored channels.
pub open spec fn views_of_channel_records(s: Seq<Channel>) -> Seq<ChannelView> {
    s.map_values(|c: Channel| c@)
}

/// Relies on `<str as PartialEq>::eq`: equality of two string slices is
/// equality of their character sequences.
#[verifier::external_body]
pub(crate) fn str_eq(a: &str, b: &str) -> (r: bool)
    ensures
        r == (a@ == b@),
{
    a == b
}

/// Clones an optional string, keeping its abstract value.
pub fn clone_opt_string(o: &Option<String>) -> (r: Option<String>)
    ensures
        opt_str_view(r) == opt_str_view(*o),
        r is Some <==> o is Some,
{
    match o {
        Option::None => Option::None,
        Option::Some(s) => Option::Some(s.clone()),
    }
}

} // verus!
