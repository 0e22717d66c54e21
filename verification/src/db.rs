//! The persistence model the synchronizer reconciles against: channels keyed
//! by their unique handle, posts keyed by `(message id, channel id)`, files
//! keyed by their stable remote identifier, and the post-to-file association.
//!
//! Every write is an idempotent upsert or an insert-if-absent, so replays
//! and duplicate notifications never duplicate records.

use vstd::prelude::*;
use vstd::pervasive::VecAdditionalExecFns;

use crate::models::{Channel, ChannelView, File, FileView, NewChannel, Post, PostView};
use crate::models::{str_eq, views_of_channel_records, views_of_files, views_of_posts};

pub mod models;

verus! {

/// How many posts a channel feed query returns at most.
pub const CHANNEL_POSTS_LIMIT: usize = 25;

/// Whether some channel in `cs` carries the handle `username`.
pub open spec fn has_channel(cs: Seq<ChannelView>, username: Seq<char>) -> bool {
    exists|i: int| 0 <= i < cs.len() && cs[i].username == username
}

/// The index of the channel carrying `username`; meaningful only when
/// `has_channel` holds and the handles are unique.
pub open spec fn channel_at(cs: Seq<ChannelView>, username: Seq<char>) -> int {
    choose|i: int| 0 <= i < cs.len() && cs[i].username == username
}

/// A handle maps to at most one channel record.
pub open spec fn channels_unique(cs: Seq<ChannelView>) -> bool {
    forall|i: int, j: int|
        0 <= i < j < cs.len() ==> cs[i].username != cs[j].username
}

/// Upsert by handle: an existing record keeps its row id and takes the new
/// title and backend id; otherwise a fresh record is appended under the next
/// row id.
pub open spec fn upsert_channel(cs: Seq<ChannelView>, c: crate::models::NewChannelView) -> Seq<
    ChannelView,
> {
    if has_channel(cs, c.username) {
        let i = channel_at(cs, c.username);
        cs.update(
            i,
            ChannelView {
                id: cs[i].id,
                title: c.title,
                username: c.username,
                telegram_id: c.telegram_id,
            },
        )
    } else {
        cs.push(
            ChannelView {
                id: cs.len() as int + 1,
                title: c.title,
                username: c.username,
                telegram_id: c.telegram_id,
            },
        )
    }
}

/// Whether some post in `ps` carries the key `(telegram_id, chat_id)`.
pub open spec fn has_post(ps: Seq<PostView>, telegram_id: int, chat_id: int) -> bool {
    exists|i: int|
        0 <= i < ps.len() && ps[i].telegram_id == telegram_id && ps[i].chat_id == chat_id
}

/// A `(message id, channel id)` pair is persisted at most once.
pub open spec fn posts_unique(ps: Seq<PostView>) -> bool {
    forall|i: int, j: int|
        0 <= i < j < ps.len() ==> !(ps[i].telegram_id == ps[j].telegram_id && ps[i].chat_id
            == ps[j].chat_id)
}

/// Insert-if-absent: a post whose key is already present is silently
/// accepted as a no-op.
pub open spec fn insert_post(ps: Seq<PostView>, p: PostView) -> Seq<PostView> {
    if has_post(ps, p.telegram_id, p.chat_id) {
        ps
    } else {
        ps.push(p)
    }
}

/// Inserts the posts of `new` from index `i` on, in order, each if absent.
pub open spec fn insert_posts_from(ps: Seq<PostView>, new: Seq<PostView>, i: int) -> Seq<PostView>
    decreases new.len() - i,
{
    if i < 0 || i >= new.len() {
        ps
    } else {
        insert_posts_from(insert_post(ps, new[i]), new, i + 1)
    }
}

/// Whether some file in `fs` carries the stable remote identifier `rid`.
pub open spec fn has_file(fs: Seq<FileView>, rid: Seq<char>) -> bool {
    exists|i: int| 0 <= i < fs.len() && fs[i].remote_id == rid
}

/// The index of the file carrying `rid`; meaningful only when `has_file`
/// holds and the identifiers are unique.
pub open spec fn file_at(fs: Seq<FileView>, rid: Seq<char>) -> int {
    choose|i: int| 0 <= i < fs.len() && fs[i].remote_id == rid
}

/// A stable remote identifier maps to at most one file record.
pub open spec fn files_unique(fs: Seq<FileView>) -> bool {
    forall|i: int, j: int|
        0 <= i < j < fs.len() ==> fs[i].remote_id != fs[j].remote_id
}

/// Upsert by stable remote identifier: the stored record is replaced by the
/// written one, or a fresh record is appended.
pub open spec fn store_file(fs: Seq<FileView>, f: FileView) -> Seq<FileView> {
    if has_file(fs, f.remote_id) {
        fs.update(file_at(fs, f.remote_id), f)
    } else {
        fs.push(f)
    }
}

/// The merge of a stored file record with an incoming event for the same
/// stable remote identifier: an incoming local path wins, an absent one
/// leaves the stored path in place (so a path never silently disappears);
/// the transient download handle is refreshed; the owning post is kept once
/// known, a zero standing for not-yet-known.
pub open spec fn merge_file(existing: FileView, incoming: FileView) -> FileView {
    FileView {
        local_path: if incoming.local_path is Some {
            incoming.local_path
        } else {
            existing.local_path
        },
        remote_file: incoming.remote_file,
        remote_id: existing.remote_id,
        telegram_post_id: if existing.telegram_post_id != 0 {
            existing.telegram_post_id
        } else {
            incoming.telegram_post_id
        },
    }
}

/// One reconciliation step for a file event: a new identifier is appended
/// as it is, a known identifier has its stored record merged in place.
pub open spec fn apply_file_event(fs: Seq<FileView>, f: FileView) -> Seq<FileView> {
    if has_file(fs, f.remote_id) {
        let i = file_at(fs, f.remote_id);
        fs.update(i, merge_file(fs[i], f))
    } else {
        fs.push(f)
    }
}

/// Applies the file events of `es` from index `i` on, in arrival order.
pub open spec fn apply_file_events(fs: Seq<FileView>, es: Seq<FileView>, i: int) -> Seq<FileView>
    decreases es.len() - i,
{
    if i < 0 || i >= es.len() {
        fs
    } else {
        apply_file_events(apply_file_event(fs, es[i]), es, i + 1)
    }
}

/// The transient download handles of a sequence of file records.
pub open spec fn remotes_of(fs: Seq<FileView>) -> Seq<int> {
    fs.map_values(|f: FileView| f.remote_file)
}

/// Upserts the channels of `new` from index `i` on, in order.
pub open spec fn upsert_channels_from(
    cs: Seq<ChannelView>,
    new: Seq<crate::models::NewChannelView>,
    i: int,
) -> Seq<ChannelView>
    decreases new.len() - i,
{
    if i < 0 || i >= new.len() {
        cs
    } else {
        upsert_channels_from(upsert_channel(cs, new[i]), new, i + 1)
    }
}

/// The files from index `i` on whose download has not completed yet.
pub open spec fn missing_from(fs: Seq<FileView>, i: int) -> Seq<FileView>
    decreases fs.len() - i,
{
    if i < 0 || i >= fs.len() {
        Seq::empty()
    } else {
        let rest = missing_from(fs, i + 1);
        if fs[i].local_path is None {
            seq![fs[i]] + rest
        } else {
            rest
        }
    }
}

/// Abstract values of a sequence of file handles.
pub open spec fn ids_view(s: Seq<i32>) -> Seq<int> {
    s.map_values(|x: i32| x as int)
}

/// The file handles associated with `post_id`, from association index `i`
/// on, in association order.
pub open spec fn files_for_post(pf: Seq<(int, int)>, post_id: int, i: int) -> Seq<int>
    decreases pf.len() - i,
{
    if i < 0 || i >= pf.len() {
        Seq::empty()
    } else {
        let rest = files_for_post(pf, post_id, i + 1);
        if pf[i].0 == post_id {
            seq![pf[i].1] + rest
        } else {
            rest
        }
    }
}

/// The first `remaining` posts owned by `chat_id`, from index `i` on, in
/// storage order.
pub open spec fn posts_for_channel(ps: Seq<PostView>, chat_id: int, i: int, remaining: int) -> Seq<
    PostView,
>
    decreases ps.len() - i,
{
    if i < 0 || i >= ps.len() || remaining <= 0 {
        Seq::empty()
    } else if ps[i].chat_id == chat_id {
        seq![ps[i]] + posts_for_channel(ps, chat_id, i + 1, remaining - 1)
    } else {
        posts_for_channel(ps, chat_id, i + 1, remaining)
    }
}

/// The message ids of the first `remaining` posts owned by `chat_id`, from
/// index `i` on.
pub open spec fn post_ids_from(ps: Seq<PostView>, chat_id: int, i: int, remaining: int) -> Seq<int>
    decreases ps.len() - i,
{
    if i < 0 || i >= ps.len() || remaining <= 0 {
        Seq::empty()
    } else if ps[i].chat_id == chat_id {
        seq![ps[i].telegram_id] + post_ids_from(ps, chat_id, i + 1, remaining - 1)
    } else {
        post_ids_from(ps, chat_id, i + 1, remaining)
    }
}

/// Abstract state of the store.
pub struct DbView {
    pub channels: Seq<ChannelView>,
    pub posts: Seq<PostView>,
    pub files: Seq<FileView>,
    pub post_files: Seq<(int, int)>,
}

/// The persistence collaborator: an in-memory store with idempotent upsert
/// semantics over the three record kinds and the post-to-file association.
#[derive(Debug)]
pub struct DbService {
    channels: Vec<Channel>,
    posts: Vec<Post>,
    files: Vec<File>,
    post_files: Vec<(i64, i32)>,
}

impl View for DbService {
    type V = DbView;

    closed spec fn view(&self) -> DbView {
        DbView {
            channels: views_of_channel_records(self.channels@),
            posts: views_of_posts(self.posts@),
            files: views_of_files(self.files@),
            post_files: self.post_files@.map_values(|p: (i64, i32)| (p.0 as int, p.1 as int)),
        }
    }
}

impl DbService {
    /// The store's invariant: each key kind is unique.
    pub open spec fn wf(&self) -> bool {
        &&& channels_unique(self@.channels)
        &&& posts_unique(self@.posts)
        &&& files_unique(self@.files)
    }

    /// An empty store.
    pub fn new() -> (s: Self)
        ensures
            s.wf(),
            s@.channels == Seq::<ChannelView>::empty(),
            s@.posts == Seq::<PostView>::empty(),
            s@.files == Seq::<FileView>::empty(),
            s@.post_files == Seq::<(int, int)>::empty(),
    {
        let s = DbService {
            channels: Vec::new(),
            posts: Vec::new(),
            files: Vec::new(),
            post_files: Vec::new(),
        };
        proof {
            assert(s@.channels =~= Seq::<ChannelView>::empty());
            assert(s@.posts =~= Seq::<PostView>::empty());
            assert(s@.files =~= Seq::<FileView>::empty());
            assert(s@.post_files =~= Seq::<(int, int)>::empty());
        }
        s
    }

    /// How many channel records the store holds.
    pub fn channel_count(&self) -> (n: usize)
        ensures
            n as int == self@.channels.len(),
    {
        self.channels.len()
    }

    /// The index of the channel stored under `username`, if any.
    fn find_channel(&self, username: &str) -> (r: Option<usize>)
        requires
            self.wf(),
        ensures
            match r {
                Option::Some(i) => {
                    &&& 0 <= i < self@.channels.len()
                    &&& self@.channels[i as int].username == username@
                    &&& i as int == channel_at(self@.channels, username@)
                },
                Option::None => !has_channel(self@.channels, username@),
            },
    {
        let n: usize = self.channels.len();
        let mut i: usize = 0;
        while i < n
            invariant
                self.wf(),
                n == self@.channels.len(),
                0 <= i <= n,
                forall|j: int| 0 <= j < i ==> self@.channels[j].username != username@,
            decreases n - i,
        {
            if str_eq(self.channels[i].username.as_str(), username) {
                proof {
                    let w = channel_at(self@.channels, username@);
                    assert(self@.channels[i as int].username == username@);
                    assert(0 <= w < self@.channels.len() && self@.channels[w].username
                        == username@);
                    if w != i as int {
                        assert(false);
                    }
                }
                return Option::Some(i);
            }
            i = i + 1;
        }
        proof {
            if has_channel(self@.channels, username@) {
                let w = choose|k: int|
                    0 <= k < self@.channels.len() && self@.channels[k].username == username@;
                assert(self@.channels[w].username != username@);
            }
        }
        Option::None
    }

    /// Upserts a channel by its handle: the stored record keeps its row id
    /// but takes the reported title and backend id; an unknown handle gets a
    /// fresh record. Re-ingesting a handle never duplicates it.
    pub fn save_channel(&mut self, channel: NewChannel)
        requires
            old(self).wf(),
            old(self)@.channels.len() < 0x7fff_ffff,
        ensures
            final(self).wf(),
            final(self)@.channels == upsert_channel(old(self)@.channels, channel@),
            final(self)@.posts == old(self)@.posts,
            final(self)@.files == old(self)@.files,
            final(self)@.post_files == old(self)@.post_files,
    {
        let ghost cs: Seq<ChannelView> = self@.channels;
        match self.find_channel(channel.username.as_str()) {
            Option::Some(i) => {
                let id: i64 = self.channels[i].id;
                let updated = Channel {
                    id,
                    title: channel.title,
                    username: channel.username,
                    telegram_id: channel.telegram_id,
                };
                self.channels.set(i, updated);
                proof {
                    assert(self@.channels =~= upsert_channel(cs, channel@));
                    assert forall|a: int, b: int|
                        0 <= a < b < self@.channels.len() implies self@.channels[a].username
                        != self@.channels[b].username by {
                        assert(cs[a].username != cs[b].username);
                    }
                }
            },
            Option::None => {
                let id: i64 = (self.channels.len() as i64) + 1;
                self.channels.push(
                    Channel {
                        id,
                        title: channel.title,
                        username: channel.username,
                        telegram_id: channel.telegram_id,
                    },
                );
                proof {
                    assert(self@.channels =~= upsert_channel(cs, channel@));
                    assert forall|a: int, b: int|
                        0 <= a < b < self@.channels.len() implies self@.channels[a].username
                        != self@.channels[b].username by {
                        if b == cs.len() {
                            assert(!(0 <= a < cs.len() && cs[a].username == channel@.username));
                        } else {
                            assert(cs[a].username != cs[b].username);
                        }
                    }
                }
            },
        }
    }

    /// Looks a channel up by its handle.
    pub fn get_channel(&self, channel_name: &str) -> (r: Option<Channel>)
        requires
            self.wf(),
        ensures
            match r {
                Option::None => !has_channel(self@.channels, channel_name@),
                Option::Some(c) => {
                    &&& has_channel(self@.channels, channel_name@)
                    &&& c@ == self@.channels[channel_at(self@.channels, channel_name@)]
                },
            },
    {
        match self.find_channel(channel_name) {
            Option::None => Option::None,
            Option::Some(i) => Option::Some(self.channels[i].clone()),
        }
    }

    /// The index of the post stored under `(telegram_id, chat_id)`, if any.
    fn find_post(&self, telegram_id: i64, chat_id: i64) -> (r: Option<usize>)
        ensures
            match r {
                Option::Some(i) => {
                    &&& 0 <= i < self@.posts.len()
                    &&& self@.posts[i as int].telegram_id == telegram_id as int
                    &&& self@.posts[i as int].chat_id == chat_id as int
                },
                Option::None => !has_post(self@.posts, telegram_id as int, chat_id as int),
            },
    {
        let n: usize = self.posts.len();
        let mut i: usize = 0;
        while i < n
            invariant
                n == self@.posts.len(),
                0 <= i <= n,
                forall|j: int|
                    0 <= j < i ==> !(self@.posts[j].telegram_id == telegram_id as int
                        && self@.posts[j].chat_id == chat_id as int),
            decreases n - i,
        {
            if self.posts[i].telegram_id == telegram_id && self.posts[i].chat_id == chat_id {
                return Option::Some(i);
            }
            i = i + 1;
        }
        proof {
            if has_post(self@.posts, telegram_id as int, chat_id as int) {
                let w = choose|k: int|
                    0 <= k < self@.posts.len() && self@.posts[k].telegram_id == telegram_id as int
                        && self@.posts[k].chat_id == chat_id as int;
                assert(!(self@.posts[w].telegram_id == telegram_id as int && self@.posts[w].chat_id
                    == chat_id as int));
            }
        }
        Option::None
    }

    /// Appends each post whose `(message id, channel id)` key is not yet
    /// stored, in order; duplicates are silently accepted as no-ops.
    pub fn save_channel_posts(&mut self, posts: Vec<Post>)
        requires
            old(self).wf(),
        ensures
            final(self).wf(),
            final(self)@.posts == insert_posts_from(
                old(self)@.posts,
                views_of_posts(posts@),
                0,
            ),
            final(self)@.channels == old(self)@.channels,
            final(self)@.files == old(self)@.files,
            final(self)@.post_files == old(self)@.post_files,
    {
        let ghost orig: Seq<PostView> = self@.posts;
        let ghost nv: Seq<PostView> = views_of_posts(posts@);
        let n: usize = posts.len();
        let mut i: usize = 0;
        while i < n
            invariant
                old(self).wf(),
                self.wf(),
                n == posts.len(),
                nv == views_of_posts(posts@),
                0 <= i <= n,
                insert_posts_from(self@.posts, nv, i as int) == insert_posts_from(orig, nv, 0),
                self@.channels == old(self)@.channels,
                self@.files == old(self)@.files,
                self@.post_files == old(self)@.post_files,
            decreases n - i,
        {
            let p = posts[i].clone();
            let ghost cur: Seq<PostView> = self@.posts;
            match self.find_post(p.telegram_id, p.chat_id) {
                Option::Some(_) => {
                    proof {
                        assert(has_post(cur, p@.telegram_id, p@.chat_id));
                        assert(insert_post(cur, nv[i as int]) == cur);
                    }
                },
                Option::None => {
                    self.posts.push(p);
                    proof {
                        assert(self@.posts =~= cur.push(nv[i as int]));
                        assert(insert_post(cur, nv[i as int]) == self@.posts);
                        assert forall|a: int, b: int|
                            0 <= a < b < self@.posts.len() implies !(self@.posts[a].telegram_id
                            == self@.posts[b].telegram_id && self@.posts[a].chat_id
                            == self@.posts[b].chat_id) by {
                            if b == cur.len() {
                                assert(!(0 <= a < cur.len() && cur[a].telegram_id
                                    == nv[i as int].telegram_id && cur[a].chat_id
                                    == nv[i as int].chat_id));
                            } else {
                                assert(!(cur[a].telegram_id == cur[b].telegram_id
                                    && cur[a].chat_id == cur[b].chat_id));
                            }
                        }
                    }
                },
            }
            i = i + 1;
        }
    }

    /// The index of the file stored under the remote identifier, if any.
    fn find_file(&self, remote_id: &str) -> (r: Option<usize>)
        requires
            self.wf(),
        ensures
            match r {
                Option::Some(i) => {
                    &&& 0 <= i < self@.files.len()
                    &&& self@.files[i as int].remote_id == remote_id@
                    &&& i as int == file_at(self@.files, remote_id@)
                },
                Option::None => !has_file(self@.files, remote_id@),
            },
    {
        let n: usize = self.files.len();
        let mut i: usize = 0;
        while i < n
            invariant
                self.wf(),
                n == self@.files.len(),
                0 <= i <= n,
                forall|j: int| 0 <= j < i ==> self@.files[j].remote_id != remote_id@,
            decreases n - i,
        {
            if str_eq(self.files[i].remote_id.as_str(), remote_id) {
                proof {
                    let w = file_at(self@.files, remote_id@);
                    assert(self@.files[i as int].remote_id == remote_id@);
                    assert(0 <= w < self@.files.len() && self@.files[w].remote_id == remote_id@);
                    if w != i as int {
                        assert(false);
                    }
                }
                return Option::Some(i);
            }
            i = i + 1;
        }
        proof {
            if has_file(self@.files, remote_id@) {
                let w = choose|k: int|
                    0 <= k < self@.files.len() && self@.files[k].remote_id == remote_id@;
                assert(self@.files[w].remote_id != remote_id@);
            }
        }
        Option::None
    }

    /// Upserts a file record by its stable remote identifier: the stored
    /// record is replaced field by field, or a fresh record is appended. A
    /// later event for the same identifier therefore never duplicates it.
    pub fn save_file(&mut self, file: &File)
        requires
            old(self).wf(),
        ensures
            final(self).wf(),
            final(self)@.files == store_file(old(self)@.files, file@),
            final(self)@.channels == old(self)@.channels,
            final(self)@.posts == old(self)@.posts,
            final(self)@.post_files == old(self)@.post_files,
    {
        let ghost fs: Seq<FileView> = self@.files;
        match self.find_file(file.remote_id.as_str()) {
            Option::Some(i) => {
                self.files.set(i, file.clone());
                proof {
                    assert(self@.files =~= store_file(fs, file@));
                    assert forall|a: int, b: int|
                        0 <= a < b < self@.files.len() implies self@.files[a].remote_id
                        != self@.files[b].remote_id by {
                        assert(fs[a].remote_id != fs[b].remote_id);
                    }
                }
            },
            Option::None => {
                self.files.push(file.clone());
                proof {
                    assert(self@.files =~= store_file(fs, file@));
                    assert forall|a: int, b: int|
                        0 <= a < b < self@.files.len() implies self@.files[a].remote_id
                        != self@.files[b].remote_id by {
                        if b == fs.len() {
                            assert(!(0 <= a < fs.len() && fs[a].remote_id == file@.remote_id));
                        } else {
                            assert(fs[a].remote_id != fs[b].remote_id);
                        }
                    }
                }
            },
        }
    }

    /// Reads the record stored under the incoming file's stable remote
    /// identifier, if any.
    pub fn get_file(&self, file: &File) -> (r: Option<File>)
        requires
            self.wf(),
        ensures
            match r {
                Option::None => !has_file(self@.files, file@.remote_id),
                Option::Some(f) => {
                    &&& has_file(self@.files, file@.remote_id)
                    &&& f@ == self@.files[file_at(self@.files, file@.remote_id)]
                },
            },
    {
        match self.find_file(file.remote_id.as_str()) {
            Option::None => Option::None,
            Option::Some(i) => Option::Some(self.files[i].clone()),
        }
    }

    /// The files whose download has not completed yet, in storage order:
    /// the candidates for the periodic re-download sweep.
    pub fn get_not_loaded_files(&self) -> (r: Vec<File>)
        ensures
            views_of_files(r@) == missing_from(self@.files, 0),
    {
        let ghost fs: Seq<FileView> = self@.files;
        let mut r: Vec<File> = Vec::new();
        let n: usize = self.files.len();
        let mut i: usize = 0;
        while i < n
            invariant
                n == self@.files.len(),
                fs == self@.files,
                0 <= i <= n,
                views_of_files(r@) + missing_from(fs, i as int) == missing_from(fs, 0),
            decreases n - i,
        {
            if self.files[i].local_path.is_none() {
                let ghost before: Seq<File> = r@;
                r.push(self.files[i].clone());
                proof {
                    assert(views_of_files(r@) =~= views_of_files(before).push(r@.last()@));
                    assert(views_of_files(r@) + missing_from(fs, i + 1 as int)
                        =~= views_of_files(before) + missing_from(fs, i as int));
                }
            } else {
                proof {
                    assert(missing_from(fs, i as int) == missing_from(fs, i + 1 as int));
                }
            }
            i = i + 1;
        }
        proof {
            assert(views_of_files(r@) =~= missing_from(fs, 0));
        }
        r
    }

    /// Associates the given file handles with the post `post_id`, in order.
    pub fn save_post_files(&mut self, post_id: i64, file_ids: Vec<i32>)
        requires
            old(self).wf(),
        ensures
            final(self).wf(),
            final(self)@.post_files == old(self)@.post_files + file_ids@.map_values(
                |x: i32| (post_id as int, x as int),
            ),
            final(self)@.channels == old(self)@.channels,
            final(self)@.posts == old(self)@.posts,
            final(self)@.files == old(self)@.files,
    {
        let ghost orig: Seq<(int, int)> = self@.post_files;
        let ghost added: Seq<(int, int)> = file_ids@.map_values(
            |x: i32| (post_id as int, x as int),
        );
        let n: usize = file_ids.len();
        let mut i: usize = 0;
        while i < n
            invariant
                old(self).wf(),
                self.wf(),
                n == file_ids.len(),
                added == file_ids@.map_values(|x: i32| (post_id as int, x as int)),
                0 <= i <= n,
                self@.post_files == orig + added.take(i as int),
                self@.channels == old(self)@.channels,
                self@.posts == old(self)@.posts,
                self@.files == old(self)@.files,
            decreases n - i,
        {
            let ghost before: Seq<(int, int)> = self@.post_files;
            self.post_files.push((post_id, file_ids[i]));
            proof {
                assert(self@.post_files =~= before.push(added[i as int]));
                assert(self@.post_files =~= orig + added.take(i + 1 as int));
            }
            i = i + 1;
        }
        proof {
            assert(added.take(n as int) =~= added);
        }
    }

    /// The file handles associated with one post, in association order.
    fn files_of_post(&self, post_id: i64) -> (r: Vec<i32>)
        ensures
            ids_view(r@) == files_for_post(self@.post_files, post_id as int, 0),
    {
        let ghost pf: Seq<(int, int)> = self@.post_files;
        let mut r: Vec<i32> = Vec::new();
        let n: usize = self.post_files.len();
        let mut i: usize = 0;
        while i < n
            invariant
                n == self@.post_files.len(),
                pf == self@.post_files,
                0 <= i <= n,
                ids_view(r@) + files_for_post(pf, post_id as int, i as int) == files_for_post(
                    pf,
                    post_id as int,
                    0,
                ),
            decreases n - i,
        {
            if self.post_files[i].0 == post_id {
                let ghost before: Seq<i32> = r@;
                r.push(self.post_files[i].1);
                proof {
                    assert(ids_view(r@) =~= ids_view(before).push(r@.last() as int));
                    assert(ids_view(r@) + files_for_post(pf, post_id as int, i + 1 as int)
                        =~= ids_view(before) + files_for_post(pf, post_id as int, i as int));
                }
            } else {
                proof {
                    assert(files_for_post(pf, post_id as int, i as int) == files_for_post(
                        pf,
                        post_id as int,
                        i + 1 as int,
                    ));
                }
            }
            i = i + 1;
        }
        proof {
            assert(ids_view(r@) =~= files_for_post(pf, post_id as int, 0));
        }
        r
    }

    /// For each post id, the file handles associated with it, in order: one
    /// inner list per requested post.
    pub fn get_files_for_posts(&self, post_ids: &Vec<i64>) -> (r: Vec<Vec<i32>>)
        ensures
            r@.len() == post_ids@.len(),
            forall|k: int|
                0 <= k < r@.len() ==> ids_view(r@[k]@) == files_for_post(
                    self@.post_files,
                    post_ids@[k] as int,
                    0,
                ),
    {
        let mut r: Vec<Vec<i32>> = Vec::new();
        let n: usize = post_ids.len();
        let mut i: usize = 0;
        while i < n
            invariant
                n == post_ids@.len(),
                0 <= i <= n,
                r@.len() == i,
                forall|k: int|
                    0 <= k < i ==> ids_view(r@[k]@) == files_for_post(
                        self@.post_files,
                        post_ids@[k] as int,
                        0,
                    ),
            decreases n - i,
        {
            let files = self.files_of_post(post_ids[i]);
            r.push(files);
            i = i + 1;
        }
        r
    }

    /// The message ids of the first `limit` posts owned by `chat_id`, in
    /// storage order.
    pub fn get_channel_post_ids(&self, chat_id: i64, limit: usize) -> (r: Vec<i64>)
        ensures
            r@.map_values(|x: i64| x as int) == post_ids_from(
                self@.posts,
                chat_id as int,
                0,
                limit as int,
            ),
    {
        let ghost ps: Seq<PostView> = self@.posts;
        let mut r: Vec<i64> = Vec::new();
        let n: usize = self.posts.len();
        let mut i: usize = 0;
        let mut taken: usize = 0;
        while i < n && taken < limit
            invariant
                n == self@.posts.len(),
                ps == self@.posts,
                0 <= i <= n,
                0 <= taken <= limit,
                r@.map_values(|x: i64| x as int) + post_ids_from(
                    ps,
                    chat_id as int,
                    i as int,
                    limit - taken,
                ) == post_ids_from(ps, chat_id as int, 0, limit as int),
            decreases n - i,
        {
            if self.posts[i].chat_id == chat_id {
                let ghost before: Seq<i64> = r@;
                r.push(self.posts[i].telegram_id);
                taken = taken + 1;
                proof {
                    assert(r@.map_values(|x: i64| x as int) =~= before.map_values(
                        |x: i64| x as int,
                    ).push(r@.last() as int));
                    assert(r@.map_values(|x: i64| x as int) + post_ids_from(
                        ps,
                        chat_id as int,
                        i + 1 as int,
                        limit - taken,
                    ) =~= before.map_values(|x: i64| x as int) + post_ids_from(
                        ps,
                        chat_id as int,
                        i as int,
                        limit - (taken - 1),
                    ));
                }
            } else {
                proof {
                    assert(post_ids_from(ps, chat_id as int, i as int, limit - taken)
                        == post_ids_from(ps, chat_id as int, i + 1 as int, limit - taken));
                }
            }
            i = i + 1;
        }
        proof {
            assert(post_ids_from(ps, chat_id as int, i as int, limit - taken)
                =~= Seq::<int>::empty());
            assert(r@.map_values(|x: i64| x as int) =~= post_ids_from(
                ps,
                chat_id as int,
                0,
                limit as int,
            ));
        }
        r
    }

    /// Looks a channel up by handle and returns it with its most recent
    /// posts (up to `CHANNEL_POSTS_LIMIT`) and, for each post, the file
    /// handles associated with it.
    pub fn get_channel_posts(&self, channel_name: &str) -> (r: Option<
        (Channel, Vec<Post>, Vec<Vec<i32>>),
    >)
        requires
            self.wf(),
        ensures
            r is None <==> !has_channel(self@.channels, channel_name@),
            r matches Some((c, ps, fsl)) ==> {
                &&& c@ == self@.channels[channel_at(self@.channels, channel_name@)]
                &&& views_of_posts(ps@) == posts_for_channel(
                    self@.posts,
                    c@.telegram_id,
                    0,
                    CHANNEL_POSTS_LIMIT as int,
                )
                &&& fsl@.len() == ps@.len()
                &&& forall|k: int|
                    0 <= k < ps@.len() ==> ids_view(fsl@[k]@) == files_for_post(
                        self@.post_files,
                        ps@[k]@.telegram_id,
                        0,
                    )
            },
    {
        let channel = match self.get_channel(channel_name) {
            Option::None => {
                return Option::None;
            },
            Option::Some(c) => c,
        };
        let chat_id: i64 = channel.telegram_id;
        let ghost ps: Seq<PostView> = self@.posts;
        let mut posts: Vec<Post> = Vec::new();
        let n: usize = self.posts.len();
        let mut i: usize = 0;
        let mut taken: usize = 0;
        while i < n && taken < CHANNEL_POSTS_LIMIT
            invariant
                n == self@.posts.len(),
                ps == self@.posts,
                chat_id as int == channel@.telegram_id,
                0 <= i <= n,
                0 <= taken <= CHANNEL_POSTS_LIMIT,
                views_of_posts(posts@) + posts_for_channel(
                    ps,
                    chat_id as int,
                    i as int,
                    CHANNEL_POSTS_LIMIT - taken,
                ) == posts_for_channel(ps, chat_id as int, 0, CHANNEL_POSTS_LIMIT as int),
            decreases n - i,
        {
            if self.posts[i].chat_id == chat_id {
                let ghost before: Seq<Post> = posts@;
                posts.push(self.posts[i].clone());
                taken = taken + 1;
                proof {
                    assert(views_of_posts(posts@) =~= views_of_posts(before).push(posts@.last()@));
                    assert(views_of_posts(posts@) + posts_for_channel(
                        ps,
                        chat_id as int,
                        i + 1 as int,
                        CHANNEL_POSTS_LIMIT - taken,
                    ) =~= views_of_posts(before) + posts_for_channel(
                        ps,
                        chat_id as int,
                        i as int,
                        CHANNEL_POSTS_LIMIT - (taken - 1),
                    ));
                }
            } else {
                proof {
                    assert(posts_for_channel(ps, chat_id as int, i as int, CHANNEL_POSTS_LIMIT
                        - taken) == posts_for_channel(
                        ps,
                        chat_id as int,
                        i + 1 as int,
                        CHANNEL_POSTS_LIMIT - taken,
                    ));
                }
            }
            i = i + 1;
        }
        proof {
            assert(posts_for_channel(ps, chat_id as int, i as int, CHANNEL_POSTS_LIMIT - taken)
                =~= Seq::<PostView>::empty());
            assert(views_of_posts(posts@) =~= posts_for_channel(
                ps,
                chat_id as int,
                0,
                CHANNEL_POSTS_LIMIT as int,
            ));
        }
        let mut file_lists: Vec<Vec<i32>> = Vec::new();
        let m: usize = posts.len();
        let mut k: usize = 0;
        while k < m
            invariant
                m == posts@.len(),
                0 <= k <= m,
                file_lists@.len() == k,
                forall|j: int|
                    0 <= j < k ==> ids_view(file_lists@[j]@) == files_for_post(
                        self@.post_files,
                        posts@[j]@.telegram_id,
                        0,
                    ),
            decreases m - k,
        {
            let files = self.files_of_post(posts[k].telegram_id);
            file_lists.push(files);
            k = k + 1;
        }
        proof {
            assert(forall|j: int|
                0 <= j < posts@.len() ==> views_of_posts(posts@)[j] == posts@[j]@);
        }
        Option::Some((channel, posts, file_lists))
    }
}

/// Law: inserting the same post event again is a no-op, whatever the store
/// holds: insert-if-absent is idempotent.
pub proof fn lemma_insert_post_idempotent(ps: Seq<PostView>, p: PostView)
    ensures
        insert_post(insert_post(ps, p), p) == insert_post(ps, p),
{
    if !has_post(ps, p.telegram_id, p.chat_id) {
        assert(ps.push(p)[ps.len() as int] == p);
        assert(has_post(ps.push(p), p.telegram_id, p.chat_id));
    }
}

/// How many stored posts carry the key `(tid, cid)`.
pub open spec fn count_post_key(ps: Seq<PostView>, tid: int, cid: int) -> int
    decreases ps.len(),
{
    if ps.len() == 0 {
        0
    } else {
        count_post_key(ps.drop_last(), tid, cid) + if ps.last().telegram_id == tid
            && ps.last().chat_id == cid {
            1int
        } else {
            0int
        }
    }
}

/// In a store with unique post keys, a key is stored exactly once when
/// present and never otherwise.
pub proof fn lemma_unique_count(ps: Seq<PostView>, tid: int, cid: int)
    requires
        posts_unique(ps),
    ensures
        count_post_key(ps, tid, cid) == if has_post(ps, tid, cid) {
            1int
        } else {
            0int
        },
    decreases ps.len(),
{
    if ps.len() == 0 {
    } else {
        let prefix = ps.drop_last();
        assert(posts_unique(prefix)) by {
            assert(forall|i: int, j: int|
                0 <= i < j < prefix.len() ==> !(#[trigger] prefix[i].telegram_id == #[trigger]
                prefix[j].telegram_id && prefix[i].chat_id == prefix[j].chat_id));
        }
        lemma_unique_count(prefix, tid, cid);
        let last = ps.last();
        if last.telegram_id == tid && last.chat_id == cid {
            assert(!has_post(prefix, tid, cid)) by {
                if has_post(prefix, tid, cid) {
                    let w = choose|i: int|
                        0 <= i < prefix.len() && prefix[i].telegram_id == tid && prefix[i].chat_id
                            == cid;
                    assert(!(ps[w].telegram_id == ps[ps.len() - 1].telegram_id && ps[w].chat_id
                        == ps[ps.len() - 1].chat_id));
                }
            }
            assert(has_post(ps, tid, cid)) by {
                assert(ps[ps.len() - 1].telegram_id == tid && ps[ps.len() - 1].chat_id == cid);
            }
        } else {
            assert(has_post(ps, tid, cid) <==> has_post(prefix, tid, cid)) by {
                if has_post(ps, tid, cid) {
                    let w = choose|i: int|
                        0 <= i < ps.len() && ps[i].telegram_id == tid && ps[i].chat_id == cid;
                    assert(w < ps.len() - 1);
                    assert(prefix[w].telegram_id == tid && prefix[w].chat_id == cid);
                }
                if has_post(prefix, tid, cid) {
                    let w = choose|i: int|
                        0 <= i < prefix.len() && prefix[i].telegram_id == tid && prefix[i].chat_id
                            == cid;
                    assert(ps[w].telegram_id == tid && ps[w].chat_id == cid);
                }
            }
        }
    }
}

/// Law: re-delivering an identical post event any number of times results in
/// exactly one persisted record for its `(message id, channel id)` pair. One
/// delivery stores the key exactly once, every further delivery is a no-op,
/// and the key stays unique.
pub proof fn lemma_post_event_exactly_once(ps: Seq<PostView>, p: PostView)
    requires
        posts_unique(ps),
    ensures
        insert_post(insert_post(ps, p), p) == insert_post(ps, p),
        count_post_key(insert_post(ps, p), p.telegram_id, p.chat_id) == 1,
        posts_unique(insert_post(ps, p)),
{
    lemma_insert_post_idempotent(ps, p);
    let tid = p.telegram_id;
    let cid = p.chat_id;
    if has_post(ps, tid, cid) {
        lemma_unique_count(ps, tid, cid);
    } else {
        let ps1 = ps.push(p);
        assert(posts_unique(ps1)) by {
            assert forall|a: int, b: int|
                0 <= a < b < ps1.len() implies !(ps1[a].telegram_id == ps1[b].telegram_id
                && ps1[a].chat_id == ps1[b].chat_id) by {
                if b == ps.len() {
                    assert(!(0 <= a < ps.len() && ps[a].telegram_id == tid && ps[a].chat_id
                        == cid));
                } else {
                    assert(!(ps[a].telegram_id == ps[b].telegram_id && ps[a].chat_id
                        == ps[b].chat_id));
                }
            }
        }
        assert(has_post(ps1, tid, cid)) by {
            assert(ps1[ps.len() as int].telegram_id == tid && ps1[ps.len() as int].chat_id == cid);
        }
        lemma_unique_count(ps1, tid, cid);
    }
}

} // verus!
