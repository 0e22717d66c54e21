//! Feed-side records: the shapes handed to the feed-rendering collaborator,
//! and the verified mapping from stored records onto them. The mapping
//! renders the numeric post identifier and publication timestamp as decimal
//! strings for the feed's guid and date fields.

use vstd::prelude::*;

use crate::models::{ChannelView, PostView};
use crate::models::{clone_opt_string, opt_str_view};

verus! {

/// A post as rendered into the feed: `guid` is the decimal form of the
/// backend message id, `pub_date` the decimal form of the publication
/// timestamp.
#[derive(Debug)]
pub struct Post {
    pub title: Option<String>,
    pub link: String,
    pub guid: String,
    pub pub_date: String,
    pub content: String,
    pub channel_id: i64,
}

/// Abstract value of a feed post.
pub struct FeedPostView {
    pub title: Option<Seq<char>>,
    pub link: Seq<char>,
    pub guid: Seq<char>,
    pub pub_date: Seq<char>,
    pub content: Seq<char>,
    pub channel_id: int,
}

impl View for Post {
    type V = FeedPostView;

    open spec fn view(&self) -> FeedPostView {
        FeedPostView {
            title: opt_str_view(self.title),
            link: self.link@,
            guid: self.guid@,
            pub_date: self.pub_date@,
            content: self.content@,
            channel_id: self.channel_id as int,
        }
    }
}

impl Post {
    pub fn title(&self) -> (r: &Option<String>)
        ensures
            r == &self.title,
    {
        &self.title
    }

    pub fn link(&self) -> (r: &str)
        ensures
            r@ == self.link@,
    {
        self.link.as_str()
    }

    pub fn guid(&self) -> (r: &str)
        ensures
            r@ == self.guid@,
    {
        self.guid.as_str()
    }

    pub fn pub_date(&self) -> (r: &str)
        ensures
            r@ == self.pub_date@,
    {
        self.pub_date.as_str()
    }

    pub fn content(&self) -> (r: &str)
        ensures
            r@ == self.content@,
    {
        self.content.as_str()
    }

    pub fn channel_id(&self) -> (r: i64)
        ensures
            r == self.channel_id,
    {
        self.channel_id
    }
}

/// A channel as first handed to the feed renderer, before it has a stored
/// row.
#[derive(Debug)]
pub struct NewChannel {
    pub title: String,
    pub username: String,
    pub link: String,
    pub description: Option<String>,
}

/// A channel as rendered into the feed's metadata.
#[derive(Debug)]
pub struct Channel {
    pub id: i64,
    pub title: String,
    pub username: String,
    pub link: String,
    pub description: Option<String>,
}

/// Abstract value of a feed channel.
pub struct FeedChannelView {
    pub id: int,
    pub title: Seq<char>,
    pub username: Seq<char>,
    pub link: Seq<char>,
    pub description: Option<Seq<char>>,
}

impl View for Channel {
    type V = FeedChannelView;

    open spec fn view(&self) -> FeedChannelView {
        FeedChannelView {
            id: self.id as int,
            title: self.title@,
            username: self.username@,
            link: self.link@,
            description: opt_str_view(self.description),
        }
    }
}

impl Channel {
    pub fn id(&self) -> (r: i64)
        ensures
            r == self.id,
    {
        self.id
    }

    pub fn title(&self) -> (r: &str)
        ensures
            r@ == self.title@,
    {
        self.title.as_str()
    }

    pub fn username(&self) -> (r: &str)
        ensures
            r@ == self.username@,
    {
        self.username.as_str()
    }

    pub fn link(&self) -> (r: &str)
        ensures
            r@ == self.link@,
    {
        self.link.as_str()
    }

    pub fn description(&self) -> (r: &Option<String>)
        ensures
            r == &self.description,
    {
        &self.description
    }
}

/// The decimal digit for a value between zero and nine.
pub open spec fn digit_char(d: int) -> char {
    if d == 0 {
        '0'
    } else if d == 1 {
        '1'
    } else if d == 2 {
        '2'
    } else if d == 3 {
        '3'
    } else if d == 4 {
        '4'
    } else if d == 5 {
        '5'
    } else if d == 6 {
        '6'
    } else if d == 7 {
        '7'
    } else if d == 8 {
        '8'
    } else {
        '9'
    }
}

/// The decimal digits of a nonnegative integer, most significant first,
/// without leading zeroes (a single zero for zero itself).
pub open spec fn dec_nat(n: int) -> Seq<char>
    decreases n,
{
    if n < 10 {
        seq![digit_char(n)]
    } else {
        dec_nat(n / 10).push(digit_char(n % 10))
    }
}

/// The decimal form of an integer: a minus sign before the digits of its
/// magnitude when negative.
pub open spec fn dec_int(n: int) -> Seq<char> {
    if n < 0 {
        seq!['-'] + dec_nat(-n)
    } else {
        dec_nat(n)
    }
}

/// The one-character string for a decimal digit.
fn digit_str(d: u64) -> (r: &'static str)
    requires
        d < 10,
    ensures
        r@ == seq![digit_char(d as int)],
{
    let r: &'static str = match d {
        0 => "0",
        1 => "1",
        2 => "2",
        3 => "3",
        4 => "4",
        5 => "5",
        6 => "6",
        7 => "7",
        8 => "8",
        _ => "9",
    };
    proof {
        reveal_strlit("0");
        reveal_strlit("1");
        reveal_strlit("2");
        reveal_strlit("3");
        reveal_strlit("4");
        reveal_strlit("5");
        reveal_strlit("6");
        reveal_strlit("7");
        reveal_strlit("8");
        reveal_strlit("9");
        assert(r@ =~= seq![digit_char(d as int)]);
    }
    r
}

/// Renders an unsigned integer in decimal.
pub fn u64_dec(n: u64) -> (r: String)
    ensures
        r@ == dec_nat(n as int),
    decreases n,
{
    if n < 10 {
        digit_str(n).to_owned()
    } else {
        let mut s = u64_dec(n / 10);
        s.append(digit_str(n % 10));
        proof {
            assert(s@ =~= dec_nat(n as int));
        }
        s
    }
}

/// Renders a signed integer in decimal.
pub fn i64_dec(n: i64) -> (r: String)
    ensures
        r@ == dec_int(n as int),
{
    if n >= 0 {
        u64_dec(n as u64)
    } else {
        let magnitude: u64 = if n == i64::MIN {
            9223372036854775808u64
        } else {
            (-n) as u64
        };
        proof {
            assert(magnitude as int == -(n as int));
        }
        let mut s = String::from_str("-");
        let digits = u64_dec(magnitude);
        s.append(digits.as_str());
        proof {
            reveal_strlit("-");
            assert(s@ =~= dec_int(n as int));
        }
        s
    }
}

/// Renders a 32-bit signed integer in decimal.
pub fn i32_dec(n: i32) -> (r: String)
    ensures
        r@ == dec_int(n as int),
{
    i64_dec(n as i64)
}

/// The feed post that a stored post renders to: the guid is the decimal
/// message id, the date the decimal publication timestamp, and the owning
/// channel id carries over.
pub open spec fn feed_post_of(p: PostView) -> FeedPostView {
    FeedPostView {
        title: p.title,
        link: p.link,
        guid: dec_int(p.telegram_id),
        pub_date: dec_int(p.pub_date),
        content: p.content,
        channel_id: p.chat_id,
    }
}

/// The feed channel that a stored channel renders to; the stored record
/// carries no link or description yet, so those stay empty.
pub open spec fn feed_channel_of(c: ChannelView) -> FeedChannelView {
    FeedChannelView {
        id: c.id,
        title: c.title,
        username: c.username,
        link: Seq::empty(),
        description: Option::None,
    }
}

/// Abstract values of a sequence of feed posts.
pub open spec fn views_of_feed_posts(s: Seq<Post>) -> Seq<FeedPostView> {
    s.map_values(|p: Post| p@)
}

/// Renders one stored post as a feed post.
pub fn to_feed_post(p: &crate::models::Post) -> (r: Post)
    ensures
        r@ == feed_post_of(p@),
{
    Post {
        title: clone_opt_string(&p.title),
        link: p.link.clone(),
        guid: i64_dec(p.telegram_id),
        pub_date: i32_dec(p.pub_date),
        content: p.content.clone(),
        channel_id: p.chat_id,
    }
}

/// Renders one stored channel as a feed channel.
pub fn to_feed_channel(c: &crate::models::Channel) -> (r: Channel)
    ensures
        r@ == feed_channel_of(c@),
{
    Channel {
        id: c.id,
        title: c.title.clone(),
        username: c.username.clone(),
        link: String::new(),
        description: Option::None,
    }
}

} // verus!
