//! The synchronizer/reconciler and the backfill orchestrator.
//!
//! `App` consumes normalized domain events and turns each into an idempotent
//! persistence operation: channels are upserted by handle, posts inserted if
//! absent, file records merged by stable remote identifier. Backfill is the
//! two-step workflow `Searching -> Fetching` that brings an unknown channel's
//! history into the store through the same normalizer and the same
//! persistence operations as the live path.

use vstd::prelude::*;

use crate::db::models::{feed_channel_of, feed_post_of, to_feed_channel, to_feed_post};
use crate::db::models::views_of_feed_posts;
use crate::db::{
    apply_file_event, apply_file_events, channel_at, file_at, has_channel, has_file, ids_view,
    insert_post, insert_posts_from, merge_file, posts_for_channel, remotes_of, store_file,
    upsert_channel, upsert_channels_from, CHANNEL_POSTS_LIMIT,
};
use crate::db::{files_unique, DbService};
use crate::models::{views_of_channels, views_of_files, views_of_posts};
use crate::models::{File, FileView, NewChannel, Post};
use crate::telegram::{
    accepted_channel, history_files_from, history_posts_from, history_to_posts, is_search_match,
    search_match, NewUpdate, RawChat, RawMessage, TelegramService,
};

verus! {

/// What the synchronizer asks its caller to do after reconciling one event.
#[derive(Debug)]
pub enum SyncAction {
    /// Request the download of this transient file handle.
    RequestDownload(i32),
    /// The file with this stable remote identifier has just become ready:
    /// its local path went from absent to present. This is the signal point
    /// for downstream consumers; their reaction is out of this core's scope.
    FileReady(String),
}

/// The outcome of the backfill orchestrator's `Searching` state.
#[derive(Debug)]
pub enum BackfillStep {
    /// The handle names a known channel: fetch its history next.
    FetchHistory(NewChannel),
    /// The search returned no acceptable match; the orchestration is over.
    ChannelNotFound,
}

/// What a local feed lookup decided.
#[derive(Debug)]
pub enum FeedLookup {
    /// The channel is known; here are its feed and items.
    Found(crate::db::models::Channel, Vec<crate::db::models::Post>),
    /// Nothing stored under this handle: a backfill search is in order.
    NeedSearch,
}

/// The application core: the connection lifecycle state and the store the
/// synchronizer reconciles against.
#[derive(Debug)]
pub struct App {
    pub tg: TelegramService,
    pub db: DbService,
}

/// The merged file record written when an event arrives for an already
/// stored identifier: the incoming local path wins when present, otherwise
/// the stored one stays; the transient download handle is refreshed; the
/// stable identifier is kept; the owning post is kept once known.
fn merged_file(existing: &File, incoming: &File) -> (r: File)
    ensures
        r@ == merge_file(existing@, incoming@),
{
    let local_path = if incoming.local_path.is_some() {
        crate::models::clone_opt_string(&incoming.local_path)
    } else {
        crate::models::clone_opt_string(&existing.local_path)
    };
    let telegram_post_id: i64 = if existing.telegram_post_id != 0 {
        existing.telegram_post_id
    } else {
        incoming.telegram_post_id
    };
    File {
        local_path,
        remote_file: incoming.remote_file,
        remote_id: existing.remote_id.clone(),
        telegram_post_id,
    }
}

impl App {
    pub fn new(tg: TelegramService, db: DbService) -> (a: App)
        ensures
            a.tg == tg,
            a.db == db,
    {
        App { tg, db }
    }

    /// Reconciles one domain event against the store, idempotently, and
    /// reports what the caller must do: a channel event upserts by handle, a
    /// post event inserts if absent, and a file event merges by stable
    /// remote identifier. A file not yet stored is recorded and its download
    /// requested; a stored file whose local path goes from absent to present
    /// raises the ready signal. An unchanged file record is not rewritten.
    pub fn handle_update(&mut self, update: NewUpdate) -> (act: Option<SyncAction>)
        requires
            old(self).db.wf(),
            old(self).db@.channels.len() < 0x7fff_ffff,
        ensures
            final(self).db.wf(),
            final(self).tg == old(self).tg,
            match update {
                NewUpdate::Post(p) => {
                    &&& final(self).db@.posts == insert_post(old(self).db@.posts, p@)
                    &&& final(self).db@.channels == old(self).db@.channels
                    &&& final(self).db@.files == old(self).db@.files
                    &&& final(self).db@.post_files == old(self).db@.post_files
                    &&& act is None
                },
                NewUpdate::Channel(c) => {
                    &&& final(self).db@.channels == upsert_channel(old(self).db@.channels, c@)
                    &&& final(self).db@.posts == old(self).db@.posts
                    &&& final(self).db@.files == old(self).db@.files
                    &&& final(self).db@.post_files == old(self).db@.post_files
                    &&& act is None
                },
                NewUpdate::File(f) => {
                    let fs = old(self).db@.files;
                    &&& final(self).db@.files == apply_file_event(fs, f@)
                    &&& final(self).db@.channels == old(self).db@.channels
                    &&& final(self).db@.posts == old(self).db@.posts
                    &&& final(self).db@.post_files == old(self).db@.post_files
                    &&& !has_file(fs, f@.remote_id) ==> (act matches Some(
                        SyncAction::RequestDownload(h),
                    ) && h == f.remote_file)
                    &&& (has_file(fs, f@.remote_id) && fs[file_at(fs, f@.remote_id)].local_path
                        is None && f@.local_path is Some) ==> (act matches Some(
                        SyncAction::FileReady(rid),
                    ) && rid@ == f@.remote_id)
                    &&& (has_file(fs, f@.remote_id) && !(fs[file_at(
                        fs,
                        f@.remote_id,
                    )].local_path is None && f@.local_path is Some)) ==> act is None
                },
            },
    {
        match update {
            NewUpdate::Post(p) => {
                let ghost ps0 = self.db@.posts;
                let ghost pv = p@;
                let mut batch: Vec<Post> = Vec::new();
                batch.push(p);
                let ghost bv = views_of_posts(batch@);
                proof {
                    assert(bv.len() == 1 && bv[0] == pv);
                }
                self.db.save_channel_posts(batch);
                proof {
                    assert(insert_posts_from(ps0, bv, 0) == insert_posts_from(
                        insert_post(ps0, bv[0]),
                        bv,
                        1,
                    ));
                    assert(insert_posts_from(ps0, bv, 0) == insert_post(ps0, pv));
                }
                Option::None
            },
            NewUpdate::Channel(c) => {
                self.db.save_channel(c);
                Option::None
            },
            NewUpdate::File(f) => {
                let ghost fs = self.db@.files;
                match self.db.get_file(&f) {
                    Option::None => {
                        let handle: i32 = f.remote_file;
                        self.db.save_file(&f);
                        proof {
                            assert(apply_file_event(fs, f@) == store_file(fs, f@));
                        }
                        Option::Some(SyncAction::RequestDownload(handle))
                    },
                    Option::Some(db_file) => {
                        let ghost idx = file_at(fs, f@.remote_id);
                        let became_ready = db_file.local_path.is_none()
                            && f.local_path.is_some();
                        let merged = merged_file(&db_file, &f);
                        proof {
                            assert(merged@.remote_id == f@.remote_id);
                        }
                        if !db_file.same_fields(&merged) {
                            self.db.save_file(&merged);
                            proof {
                                assert(file_at(fs, merged@.remote_id) == idx);
                                assert(self.db@.files == apply_file_event(fs, f@));
                            }
                        } else {
                            proof {
                                assert(fs.update(idx, merged@) =~= fs);
                                assert(self.db@.files == apply_file_event(fs, f@));
                            }
                        }
                        if became_ready {
                            Option::Some(SyncAction::FileReady(f.remote_id.clone()))
                        } else {
                            Option::None
                        }
                    },
                }
            },
        }
    }

    /// Upserts every channel of a full backend catalog, in order: the
    /// full-catalog synchronization sweep's persistence half.
    pub fn synchronize_channels(&mut self, channels: Vec<NewChannel>)
        requires
            old(self).db.wf(),
            old(self).db@.channels.len() + channels@.len() < 0x7fff_ffff,
        ensures
            final(self).db.wf(),
            final(self).tg == old(self).tg,
            final(self).db@.channels == upsert_channels_from(
                old(self).db@.channels,
                views_of_channels(channels@),
                0,
            ),
            final(self).db@.posts == old(self).db@.posts,
            final(self).db@.files == old(self).db@.files,
            final(self).db@.post_files == old(self).db@.post_files,
    {
        let ghost orig = self.db@.channels;
        let ghost nv = views_of_channels(channels@);
        let n: usize = channels.len();
        let mut i: usize = 0;
        while i < n
            invariant
                old(self).db.wf(),
                self.db.wf(),
                self.tg == old(self).tg,
                n == channels.len(),
                nv == views_of_channels(channels@),
                0 <= i <= n,
                self.db@.channels.len() <= orig.len() + i,
                orig.len() + n < 0x7fff_ffff,
                upsert_channels_from(self.db@.channels, nv, i as int) == upsert_channels_from(
                    orig,
                    nv,
                    0,
                ),
                self.db@.posts == old(self).db@.posts,
                self.db@.files == old(self).db@.files,
                self.db@.post_files == old(self).db@.post_files,
            decreases n - i,
        {
            let c = channels[i].clone();
            let ghost cur = self.db@.channels;
            self.db.save_channel(c);
            proof {
                assert(self.db@.channels == upsert_channel(cur, nv[i as int]));
                assert(self.db@.channels.len() <= cur.len() + 1);
            }
            i = i + 1;
        }
    }

    /// The transient handles of every stored file whose download has not
    /// completed: what the periodic re-download sweep asks the backend for.
    pub fn synchronize_files(&self) -> (r: Vec<i32>)
        ensures
            ids_view(r@) == remotes_of(crate::db::missing_from(self.db@.files, 0)),
    {
        let files = self.db.get_not_loaded_files();
        let ghost fv = views_of_files(files@);
        let mut r: Vec<i32> = Vec::new();
        let n: usize = files.len();
        let mut i: usize = 0;
        while i < n
            invariant
                n == files.len(),
                fv == views_of_files(files@),
                0 <= i <= n,
                ids_view(r@) == remotes_of(fv.take(i as int)),
            decreases n - i,
        {
            let ghost before = r@;
            r.push(files[i].remote_file);
            proof {
                assert(ids_view(r@) =~= ids_view(before).push(files@[i as int]@.remote_file));
                assert(remotes_of(fv.take(i + 1 as int)) =~= remotes_of(fv.take(i as int)).push(
                    fv[i as int].remote_file,
                ));
            }
            i = i + 1;
        }
        proof {
            assert(fv.take(n as int) =~= fv);
            assert(ids_view(r@) == remotes_of(fv));
        }
        r
    }

    /// The `Searching` state of the backfill orchestrator: accepts the
    /// backend's search result only for an exact channel-kind, exact-handle
    /// match. A miss is terminal: no history fetch is instructed and the
    /// store is untouched.
    pub fn backfill_on_search(&self, channel_name: &str, found: Option<RawChat>) -> (step:
        BackfillStep)
        ensures
            match found {
                Option::None => step is ChannelNotFound,
                Option::Some(chat) => {
                    if is_search_match(channel_name@, chat) {
                        step matches BackfillStep::FetchHistory(c) && accepted_channel(
                            c,
                            chat,
                            channel_name@,
                        )
                    } else {
                        step is ChannelNotFound
                    }
                },
            },
    {
        match search_match(channel_name, found) {
            Option::None => BackfillStep::ChannelNotFound,
            Option::Some(c) => BackfillStep::FetchHistory(c),
        }
    }

    /// The `Fetching` state of the backfill orchestrator: normalizes every
    /// fetched message, upserts the channel first (so the persisted posts
    /// have a valid owning channel), then inserts the surviving posts, and
    /// returns the handles of the embedded images to download. A message
    /// that fails normalization contributes nothing and never aborts the
    /// batch.
    pub fn backfill_on_history(&mut self, channel: NewChannel, history: &Vec<RawMessage>) -> (r:
        Vec<i32>)
        requires
            old(self).db.wf(),
            old(self).db@.channels.len() < 0x7fff_ffff,
        ensures
            final(self).db.wf(),
            final(self).tg == old(self).tg,
            final(self).db@.channels == upsert_channel(old(self).db@.channels, channel@),
            final(self).db@.posts == insert_posts_from(
                old(self).db@.posts,
                history_posts_from(history@, channel@.telegram_id, 0),
                0,
            ),
            final(self).db@.files == old(self).db@.files,
            final(self).db@.post_files == old(self).db@.post_files,
            ids_view(r@) == remotes_of(history_files_from(history@, 0)),
    {
        let chat_id: i64 = channel.telegram_id;
        let (posts, files) = history_to_posts(chat_id, history);
        self.db.save_channel(channel);
        self.db.save_channel_posts(posts);
        let ghost fv = views_of_files(files@);
        let mut r: Vec<i32> = Vec::new();
        let n: usize = files.len();
        let mut i: usize = 0;
        while i < n
            invariant
                n == files.len(),
                fv == views_of_files(files@),
                0 <= i <= n,
                ids_view(r@) == remotes_of(fv.take(i as int)),
            decreases n - i,
        {
            let ghost before = r@;
            r.push(files[i].remote_file);
            proof {
                assert(ids_view(r@) =~= ids_view(before).push(files@[i as int]@.remote_file));
                assert(remotes_of(fv.take(i + 1 as int)) =~= remotes_of(fv.take(i as int)).push(
                    fv[i as int].remote_file,
                ));
            }
            i = i + 1;
        }
        proof {
            assert(fv.take(n as int) =~= fv);
        }
        r
    }

    /// Looks a channel up by handle and renders it with its recent posts in
    /// the feed shape; absent means the caller should try a backfill.
    pub fn get_channel_posts(&self, channel_name: &str) -> (r: Option<
        (crate::db::models::Channel, Vec<crate::db::models::Post>),
    >)
        requires
            self.db.wf(),
        ensures
            r is None <==> !has_channel(self.db@.channels, channel_name@),
            r matches Some((c, ps)) ==> {
                let stored = self.db@.channels[channel_at(self.db@.channels, channel_name@)];
                &&& c@ == feed_channel_of(stored)
                &&& views_of_feed_posts(ps@) == posts_for_channel(
                    self.db@.posts,
                    stored.telegram_id,
                    0,
                    CHANNEL_POSTS_LIMIT as int,
                ).map_values(|p: crate::models::PostView| feed_post_of(p))
            },
    {
        match self.db.get_channel_posts(channel_name) {
            Option::None => Option::None,
            Option::Some((channel, posts, _files)) => {
                let feed_channel = to_feed_channel(&channel);
                let ghost pv = views_of_posts(posts@);
                let ghost goal = pv.map_values(|p: crate::models::PostView| feed_post_of(p));
                let mut items: Vec<crate::db::models::Post> = Vec::new();
                let n: usize = posts.len();
                let mut i: usize = 0;
                while i < n
                    invariant
                        n == posts.len(),
                        pv == views_of_posts(posts@),
                        goal == pv.map_values(|p: crate::models::PostView| feed_post_of(p)),
                        0 <= i <= n,
                        views_of_feed_posts(items@) == goal.take(i as int),
                    decreases n - i,
                {
                    let ghost before = items@;
                    items.push(to_feed_post(&posts[i]));
                    proof {
                        assert(views_of_feed_posts(items@) =~= views_of_feed_posts(before).push(
                            feed_post_of(pv[i as int]),
                        ));
                        assert(goal.take(i + 1 as int) =~= goal.take(i as int).push(
                            goal[i as int],
                        ));
                    }
                    i = i + 1;
                }
                proof {
                    assert(goal.take(n as int) =~= goal);
                }
                Option::Some((feed_channel, items))
            },
        }
    }

    /// The feed endpoint's first decision: serve the stored channel when it
    /// is known, otherwise ask for a search-and-backfill round before a
    /// second lookup.
    pub fn get_posts_or_search(&self, channel_name: &str) -> (r: FeedLookup)
        requires
            self.db.wf(),
        ensures
            !has_channel(self.db@.channels, channel_name@) <==> r is NeedSearch,
            r matches FeedLookup::Found(c, ps) ==> {
                let stored = self.db@.channels[channel_at(self.db@.channels, channel_name@)];
                &&& c@ == feed_channel_of(stored)
                &&& views_of_feed_posts(ps@) == posts_for_channel(
                    self.db@.posts,
                    stored.telegram_id,
                    0,
                    CHANNEL_POSTS_LIMIT as int,
                ).map_values(|p: crate::models::PostView| feed_post_of(p))
            },
    {
        match self.get_channel_posts(channel_name) {
            Option::None => FeedLookup::NeedSearch,
            Option::Some((c, ps)) => FeedLookup::Found(c, ps),
        }
    }
}

/// A shorthand for "event `k` of `es` is for the identifier `rid` and
/// carries a local path".
pub open spec fn event_with_path(es: Seq<FileView>, rid: Seq<char>, k: int) -> bool {
    es[k].remote_id == rid && es[k].local_path is Some
}

/// One reconciliation step seen from one identifier's record: whatever the
/// event is for, the store keeps unique identifiers, the record stays
/// present at a stable index, and its local path changes only when the
/// event is for this identifier and carries a path.
proof fn lemma_apply_event_present(fs: Seq<FileView>, e: FileView, rid: Seq<char>)
    requires
        files_unique(fs),
        has_file(fs, rid),
    ensures
        ({
            let r = apply_file_event(fs, e);
            &&& files_unique(r)
            &&& has_file(r, rid)
            &&& file_at(r, rid) == file_at(fs, rid)
            &&& (r[file_at(r, rid)].local_path is Some <==> (fs[file_at(fs, rid)].local_path
                is Some || (e.remote_id == rid && e.local_path is Some)))
        }),
{
    let idx = file_at(fs, rid);
    assert(0 <= idx < fs.len() && fs[idx].remote_id == rid);
    if has_file(fs, e.remote_id) {
        let idx_e = file_at(fs, e.remote_id);
        assert(0 <= idx_e < fs.len() && fs[idx_e].remote_id == e.remote_id);
        let r = fs.update(idx_e, merge_file(fs[idx_e], e));
        assert(apply_file_event(fs, e) == r);
        assert(files_unique(r)) by {
            assert forall|a: int, b: int|
                0 <= a < b < r.len() implies r[a].remote_id != r[b].remote_id by {
                assert(fs[a].remote_id != fs[b].remote_id);
                assert(r[a].remote_id == fs[a].remote_id);
                assert(r[b].remote_id == fs[b].remote_id);
            }
        }
        if e.remote_id == rid {
            assert(idx_e == idx);
        } else {
            assert(idx_e != idx);
            assert(r[idx] == fs[idx]);
        }
        assert(r[idx].remote_id == rid);
        assert(has_file(r, rid));
        assert(file_at(r, rid) == idx) by {
            let w = file_at(r, rid);
            assert(0 <= w < r.len() && r[w].remote_id == rid);
            if w != idx {
                assert(r[w].remote_id == r[idx].remote_id);
                assert(false);
            }
        }
    } else {
        assert(e.remote_id != rid);
        let r = fs.push(e);
        assert(apply_file_event(fs, e) == r);
        assert(files_unique(r)) by {
            assert forall|a: int, b: int|
                0 <= a < b < r.len() implies r[a].remote_id != r[b].remote_id by {
                if b == fs.len() {
                    assert(!(0 <= a < fs.len() && fs[a].remote_id == e.remote_id));
                    assert(r[a].remote_id == fs[a].remote_id);
                } else {
                    assert(r[a].remote_id == fs[a].remote_id);
                    assert(r[b].remote_id == fs[b].remote_id);
                }
            }
        }
        assert(r[idx] == fs[idx]);
        assert(has_file(r, rid));
        assert(file_at(r, rid) == idx) by {
            let w = file_at(r, rid);
            assert(0 <= w < r.len() && r[w].remote_id == rid);
            if w == fs.len() {
                assert(r[w] == e);
                assert(false);
            }
            if w != idx {
                assert(fs[w].remote_id == fs[idx].remote_id);
                assert(false);
            }
        }
    }
}

/// The induction over the remaining events once the record exists: events
/// for other identifiers never disturb it, and its local path ends up set
/// exactly when it already was or some remaining event for this identifier
/// carries one.
proof fn lemma_apply_events_present(fs: Seq<FileView>, es: Seq<FileView>, rid: Seq<char>, i: int)
    requires
        files_unique(fs),
        has_file(fs, rid),
        0 <= i <= es.len(),
    ensures
        ({
            let r = apply_file_events(fs, es, i);
            &&& files_unique(r)
            &&& has_file(r, rid)
            &&& (r[file_at(r, rid)].local_path is Some <==> (fs[file_at(fs, rid)].local_path
                is Some || exists|k: int| i <= k < es.len() && event_with_path(es, rid, k)))
        }),
    decreases es.len() - i,
{
    if i >= es.len() {
        assert(apply_file_events(fs, es, i) == fs);
        assert(!(exists|k: int| i <= k < es.len() && event_with_path(es, rid, k)));
    } else {
        let e = es[i];
        lemma_apply_event_present(fs, e, rid);
        let fs1 = apply_file_event(fs, e);
        lemma_apply_events_present(fs1, es, rid, i + 1);
        assert(apply_file_events(fs, es, i) == apply_file_events(fs1, es, i + 1));
        assert((exists|k: int| i <= k < es.len() && event_with_path(es, rid, k)) <==> ((
        e.remote_id == rid && e.local_path is Some) || exists|k: int|
            i + 1 <= k < es.len() && event_with_path(es, rid, k))) by {
            if exists|k: int| i <= k < es.len() && event_with_path(es, rid, k) {
                let k = choose|k: int| i <= k < es.len() && event_with_path(es, rid, k);
                if k != i {
                    assert(i + 1 <= k < es.len() && event_with_path(es, rid, k));
                }
            }
            if e.remote_id == rid && e.local_path is Some {
                assert(event_with_path(es, rid, i));
            }
            if exists|k: int| i + 1 <= k < es.len() && event_with_path(es, rid, k) {
                let k = choose|k: int| i + 1 <= k < es.len() && event_with_path(es, rid, k);
                assert(i <= k < es.len() && event_with_path(es, rid, k));
            }
        }
    }
}

/// The induction over the events while the record does not exist yet: it
/// appears with the first event for its identifier, and from then on the
/// present-record induction applies.
proof fn lemma_apply_events_absent(fs: Seq<FileView>, es: Seq<FileView>, rid: Seq<char>, i: int)
    requires
        files_unique(fs),
        !has_file(fs, rid),
        0 <= i <= es.len(),
    ensures
        ({
            let r = apply_file_events(fs, es, i);
            &&& files_unique(r)
            &&& ((exists|k: int| i <= k < es.len() && es[k].remote_id == rid) ==> {
                &&& has_file(r, rid)
                &&& (r[file_at(r, rid)].local_path is Some <==> exists|k: int|
                    i <= k < es.len() && event_with_path(es, rid, k))
            })
            &&& (!(exists|k: int| i <= k < es.len() && es[k].remote_id == rid) ==> !has_file(
                r,
                rid,
            ))
        }),
    decreases es.len() - i,
{
    if i >= es.len() {
        assert(apply_file_events(fs, es, i) == fs);
    } else {
        let e = es[i];
        let fs1 = apply_file_event(fs, e);
        assert(apply_file_events(fs, es, i) == apply_file_events(fs1, es, i + 1));
        if e.remote_id == rid {
            assert(!has_file(fs, e.remote_id));
            assert(fs1 == fs.push(e));
            let idx = fs.len() as int;
            assert(fs1[idx] == e);
            assert(files_unique(fs1)) by {
                assert forall|a: int, b: int|
                    0 <= a < b < fs1.len() implies fs1[a].remote_id != fs1[b].remote_id by {
                    if b == fs.len() {
                        assert(!(0 <= a < fs.len() && fs[a].remote_id == rid));
                        assert(fs1[a].remote_id == fs[a].remote_id);
                    } else {
                        assert(fs1[a].remote_id == fs[a].remote_id);
                        assert(fs1[b].remote_id == fs[b].remote_id);
                    }
                }
            }
            assert(has_file(fs1, rid));
            assert(file_at(fs1, rid) == idx) by {
                let w = file_at(fs1, rid);
                assert(0 <= w < fs1.len() && fs1[w].remote_id == rid);
                if w != idx {
                    assert(fs[w].remote_id == rid);
                    assert(has_file(fs, rid));
                }
            }
            lemma_apply_events_present(fs1, es, rid, i + 1);
            assert(exists|k: int| i <= k < es.len() && es[k].remote_id == rid) by {
                assert(es[i].remote_id == rid);
            }
            assert((e.local_path is Some || exists|k: int|
                i + 1 <= k < es.len() && event_with_path(es, rid, k)) <==> exists|k: int|
                i <= k < es.len() && event_with_path(es, rid, k)) by {
                if e.local_path is Some {
                    assert(event_with_path(es, rid, i));
                }
                if exists|k: int| i + 1 <= k < es.len() && event_with_path(es, rid, k) {
                    let k = choose|k: int| i + 1 <= k < es.len() && event_with_path(es, rid, k);
                    assert(i <= k < es.len() && event_with_path(es, rid, k));
                }
                if exists|k: int| i <= k < es.len() && event_with_path(es, rid, k) {
                    let k = choose|k: int| i <= k < es.len() && event_with_path(es, rid, k);
                    if k != i {
                        assert(i + 1 <= k < es.len() && event_with_path(es, rid, k));
                    }
                }
            }
        } else {
            assert(files_unique(fs1) && !has_file(fs1, rid)) by {
                if has_file(fs, e.remote_id) {
                    let idx_e = file_at(fs, e.remote_id);
                    assert(0 <= idx_e < fs.len() && fs[idx_e].remote_id == e.remote_id);
                    assert(fs1 == fs.update(idx_e, merge_file(fs[idx_e], e)));
                    assert forall|a: int, b: int|
                        0 <= a < b < fs1.len() implies fs1[a].remote_id != fs1[b].remote_id by {
                        assert(fs[a].remote_id != fs[b].remote_id);
                        assert(fs1[a].remote_id == fs[a].remote_id);
                        assert(fs1[b].remote_id == fs[b].remote_id);
                    }
                    if has_file(fs1, rid) {
                        let w = file_at(fs1, rid);
                        assert(0 <= w < fs1.len() && fs1[w].remote_id == rid);
                        assert(fs[w].remote_id == rid);
                        assert(has_file(fs, rid));
                    }
                } else {
                    assert(fs1 == fs.push(e));
                    assert forall|a: int, b: int|
                        0 <= a < b < fs1.len() implies fs1[a].remote_id != fs1[b].remote_id by {
                        if b == fs.len() {
                            assert(!(0 <= a < fs.len() && fs[a].remote_id == e.remote_id));
                            assert(fs1[a].remote_id == fs[a].remote_id);
                        } else {
                            assert(fs1[a].remote_id == fs[a].remote_id);
                            assert(fs1[b].remote_id == fs[b].remote_id);
                        }
                    }
                    if has_file(fs1, rid) {
                        let w = file_at(fs1, rid);
                        assert(0 <= w < fs1.len() && fs1[w].remote_id == rid);
                        if w == fs.len() {
                            assert(fs1[w] == e);
                        } else {
                            assert(fs[w].remote_id == rid);
                            assert(has_file(fs, rid));
                        }
                    }
                }
            }
            lemma_apply_events_absent(fs1, es, rid, i + 1);
            assert((exists|k: int| i <= k < es.len() && es[k].remote_id == rid) <==> (exists|
                k: int,
            |
                i + 1 <= k < es.len() && es[k].remote_id == rid)) by {
                if exists|k: int| i <= k < es.len() && es[k].remote_id == rid {
                    let k = choose|k: int| i <= k < es.len() && es[k].remote_id == rid;
                    if k != i {
                        assert(i + 1 <= k < es.len() && es[k].remote_id == rid);
                    }
                }
                if exists|k: int| i + 1 <= k < es.len() && es[k].remote_id == rid {
                    let k = choose|k: int| i + 1 <= k < es.len() && es[k].remote_id == rid;
                    assert(i <= k < es.len() && es[k].remote_id == rid);
                }
            }
            assert((exists|k: int| i <= k < es.len() && event_with_path(es, rid, k)) <==> (exists|
                k: int,
            |
                i + 1 <= k < es.len() && event_with_path(es, rid, k))) by {
                if exists|k: int| i <= k < es.len() && event_with_path(es, rid, k) {
                    let k = choose|k: int| i <= k < es.len() && event_with_path(es, rid, k);
                    if k != i {
                        assert(i + 1 <= k < es.len() && event_with_path(es, rid, k));
                    }
                }
                if exists|k: int| i + 1 <= k < es.len() && event_with_path(es, rid, k) {
                    let k = choose|k: int| i + 1 <= k < es.len() && event_with_path(es, rid, k);
                    assert(i <= k < es.len() && event_with_path(es, rid, k));
                }
            }
        }
    }
}

/// Law: for any sequence of domain file events applied in arrival order to
/// a store with unique identifiers not yet holding a given stable remote
/// identifier, as soon as some event carries that identifier its record is
/// present and unique, events for other identifiers never disturb it, and
/// its local path is set if and only if at least one event for that
/// identifier carried a local path (an absent path is how an empty one is
/// represented).
pub proof fn lemma_file_events_local_path(fs: Seq<FileView>, es: Seq<FileView>, rid: Seq<char>)
    requires
        files_unique(fs),
        !has_file(fs, rid),
        exists|k: int| 0 <= k < es.len() && es[k].remote_id == rid,
    ensures
        ({
            let r = apply_file_events(fs, es, 0);
            &&& files_unique(r)
            &&& has_file(r, rid)
            &&& (r[file_at(r, rid)].local_path is Some <==> exists|k: int|
                0 <= k < es.len() && event_with_path(es, rid, k))
        }),
{
    lemma_apply_events_absent(fs, es, rid, 0);
}

} // verus!
