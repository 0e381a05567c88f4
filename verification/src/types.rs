//! Item types served by the upstream API, with their ghost views.
//!
//! Every item shares one numeric id space and a minimal capability set:
//! an id, an optional title and an optional author. The loader treats an
//! [`Item`] as an opaque payload; only these accessors read into it.

use vstd::prelude::*;

use crate::loader::{clamped, first_n};

verus! {

/// How many of its comments a story serves when no limit is asked for:
/// none.
pub open spec fn kids_limit(limit: Option<usize>) -> usize {
    match limit {
        Option::Some(l) => l,
        Option::None => 0,
    }
}

/// Ghost image of an optional piece of text.
pub open spec fn opt_text_view(o: Option<String>) -> Option<Seq<char>> {
    match o {
        Option::Some(s) => Option::Some(s@),
        Option::None => Option::None,
    }
}

/// Ghost image of an optional list of item ids.
pub open spec fn opt_ids_view(o: Option<Vec<u32>>) -> Option<Seq<u32>> {
    match o {
        Option::Some(v) => Option::Some(v@),
        Option::None => Option::None,
    }
}

/// Ghost image of a [`Story`].
#[verifier::ext_equal]
pub struct StoryView {
    pub id: u32,
    pub descendants: u32,
    pub by: Seq<char>,
    pub kids: Option<Seq<u32>>,
    pub score: u32,
    pub title: Seq<char>,
    pub url: Option<Seq<char>>,
    pub text: Option<Seq<char>>,
    pub time: u64,
}

/// Ghost image of a [`Comment`].
#[verifier::ext_equal]
pub struct CommentView {
    pub id: u32,
    pub by: Seq<char>,
    pub kids: Option<Seq<u32>>,
    pub parent: u32,
    pub text: Seq<char>,
    pub time: u64,
}

/// Ghost image of a [`Job`].
#[verifier::ext_equal]
pub struct JobView {
    pub id: u32,
    pub score: u32,
    pub text: Option<Seq<char>>,
    pub time: u64,
    pub title: Seq<char>,
    pub url: Option<Seq<char>>,
}

/// Ghost image of a [`Poll`].
#[verifier::ext_equal]
pub struct PollView {
    pub id: u32,
    pub by: Seq<char>,
    pub descendants: u32,
    pub kids: Option<Seq<u32>>,
    pub parts: Option<Seq<u32>>,
    pub score: u32,
    pub title: Seq<char>,
    pub text: Option<Seq<char>>,
    pub time: u64,
}

/// Ghost image of a [`Pollopt`].
#[verifier::ext_equal]
pub struct PolloptView {
    pub id: u32,
    pub by: Seq<char>,
    pub poll: u32,
    pub score: u32,
    pub text: Option<Seq<char>>,
    pub time: u64,
}

/// Ghost image of an [`Item`].
#[verifier::ext_equal]
pub enum ItemView {
    Story(StoryView),
    Comment(CommentView),
    Job(JobView),
    Poll(PollView),
    Pollopt(PolloptView),
}

impl ItemView {
    /// The item's unique id, whatever its variant.
    pub open spec fn item_id(self) -> u32 {
        match self {
            ItemView::Story(s) => s.id,
            ItemView::Comment(c) => c.id,
            ItemView::Job(j) => j.id,
            ItemView::Poll(p) => p.id,
            ItemView::Pollopt(p) => p.id,
        }
    }

    /// The item's title: stories, jobs and polls carry one, comments and
    /// poll options do not.
    pub open spec fn item_title(self) -> Option<Seq<char>> {
        match self {
            ItemView::Story(s) => Option::Some(s.title),
            ItemView::Comment(_) => Option::None,
            ItemView::Job(j) => Option::Some(j.title),
            ItemView::Poll(p) => Option::Some(p.title),
            ItemView::Pollopt(_) => Option::None,
        }
    }

    /// The item's author: jobs are posted without one.
    pub open spec fn item_author(self) -> Option<Seq<char>> {
        match self {
            ItemView::Story(s) => Option::Some(s.by),
            ItemView::Comment(c) => Option::Some(c.by),
            ItemView::Job(_) => Option::None,
            ItemView::Poll(p) => Option::Some(p.by),
            ItemView::Pollopt(p) => Option::Some(p.by),
        }
    }
}

/// A story.
#[derive(Debug)]
pub struct Story {
    /// The item's unique id.
    pub id: u32,
    /// The total comment count.
    pub descendants: u32,
    /// The username of the item's author.
    pub by: String,
    /// The ids of the item's comments, in ranked display order.
    pub kids: Option<Vec<u32>>,
    /// The story's score.
    pub score: u32,
    /// The title of the story.
    pub title: String,
    /// The URL of the story.
    pub url: Option<String>,
    /// The story text. HTML.
    pub text: Option<String>,
    /// Creation date of the item, in Unix Time.
    pub time: u64,
}

impl View for Story {
    type V = StoryView;

    open spec fn view(&self) -> StoryView {
        StoryView {
            id: self.id,
            descendants: self.descendants,
            by: self.by@,
            kids: opt_ids_view(self.kids),
            score: self.score,
            title: self.title@,
            url: opt_text_view(self.url),
            text: opt_text_view(self.text),
            time: self.time,
        }
    }
}

/// A comment.
#[derive(Debug)]
pub struct Comment {
    /// The item's unique id.
    pub id: u32,
    /// The username of the item's author.
    pub by: String,
    /// The ids of the item's comments, in ranked display order.
    pub kids: Option<Vec<u32>>,
    /// The comment's parent: either another comment or the relevant story.
    pub parent: u32,
    /// The comment text. HTML.
    pub text: String,
    /// Creation date of the item, in Unix Time.
    pub time: u64,
}

impl View for Comment {
    type V = CommentView;

    open spec fn view(&self) -> CommentView {
        CommentView {
            id: self.id,
            by: self.by@,
            kids: opt_ids_view(self.kids),
            parent: self.parent,
            text: self.text@,
            time: self.time,
        }
    }
}

/// A job.
#[derive(Debug)]
pub struct Job {
    /// The item's unique id.
    pub id: u32,
    /// The story's score, or the votes for a pollopt.
    pub score: u32,
    /// The job text. HTML.
    pub text: Option<String>,
    /// Creation date of the item, in Unix Time.
    pub time: u64,
    /// The title of the job.
    pub title: String,
    /// The URL of the story.
    pub url: Option<String>,
}

impl View for Job {
    type V = JobView;

    open spec fn view(&self) -> JobView {
        JobView {
            id: self.id,
            score: self.score,
            text: opt_text_view(self.text),
            time: self.time,
            title: self.title@,
            url: opt_text_view(self.url),
        }
    }
}

/// A poll.
#[derive(Debug)]
pub struct Poll {
    /// The item's unique id.
    pub id: u32,
    /// The username of the item's author.
    pub by: String,
    /// The total comment count.
    pub descendants: u32,
    /// The ids of the item's comments, in ranked display order.
    pub kids: Option<Vec<u32>>,
    /// A list of related pollopts, in display order.
    pub parts: Option<Vec<u32>>,
    /// The story's score.
    pub score: u32,
    /// The title of the story.
    pub title: String,
    /// The story text. HTML.
    pub text: Option<String>,
    /// Creation date of the item, in Unix Time.
    pub time: u64,
}

impl View for Poll {
    type V = PollView;

    open spec fn view(&self) -> PollView {
        PollView {
            id: self.id,
            by: self.by@,
            descendants: self.descendants,
            kids: opt_ids_view(self.kids),
            parts: opt_ids_view(self.parts),
            score: self.score,
            title: self.title@,
            text: opt_text_view(self.text),
            time: self.time,
        }
    }
}

/// A poll option belonging to a poll.
#[derive(Debug)]
pub struct Pollopt {
    /// The item's unique id.
    pub id: u32,
    /// The username of the item's author.
    pub by: String,
    /// The pollopt's associated poll.
    pub poll: u32,
    /// The votes for a pollopt.
    pub score: u32,
    /// The story text. HTML.
    pub text: Option<String>,
    /// Creation date of the item, in Unix Time.
    pub time: u64,
}

impl View for Pollopt {
    type V = PolloptView;

    open spec fn view(&self) -> PolloptView {
        PolloptView {
            id: self.id,
            by: self.by@,
            poll: self.poll,
            score: self.score,
            text: opt_text_view(self.text),
            time: self.time,
        }
    }
}

/// An API item, for example a story or a comment.
#[derive(Debug)]
pub enum Item {
    /// A story.
    Story(Story),
    /// A comment.
    Comment(Comment),
    /// A job.
    Job(Job),
    /// A poll.
    Poll(Poll),
    /// A poll option belonging to a poll.
    Pollopt(Pollopt),
}

impl View for Item {
    type V = ItemView;

    open spec fn view(&self) -> ItemView {
        match self {
            Item::Story(s) => ItemView::Story(s@),
            Item::Comment(c) => ItemView::Comment(c@),
            Item::Job(j) => ItemView::Job(j@),
            Item::Poll(p) => ItemView::Poll(p@),
            Item::Pollopt(p) => ItemView::Pollopt(p@),
        }
    }
}

impl Item {
    /// The item's unique id, whatever its variant.
    pub fn id(&self) -> (r: u32)
        ensures
            r == self@.item_id(),
    {
        match self {
            Item::Story(s) => s.id,
            Item::Comment(c) => c.id,
            Item::Job(j) => j.id,
            Item::Poll(p) => p.id,
            Item::Pollopt(p) => p.id,
        }
    }

    /// The item's title, where its variant carries one.
    pub fn title(&self) -> (r: Option<&str>)
        ensures
            (match r {
                Option::Some(t) => self@.item_title() == Option::Some(t@),
                Option::None => self@.item_title() is None,
            }),
    {
        match self {
            Item::Story(s) => s.title(),
            Item::Comment(c) => c.title(),
            Item::Job(j) => j.title(),
            Item::Poll(p) => p.title(),
            Item::Pollopt(p) => p.title(),
        }
    }

    /// The item's author, where its variant carries one.
    pub fn author(&self) -> (r: Option<&str>)
        ensures
            (match r {
                Option::Some(a) => self@.item_author() == Option::Some(a@),
                Option::None => self@.item_author() is None,
            }),
    {
        match self {
            Item::Story(s) => s.author(),
            Item::Comment(c) => c.author(),
            Item::Job(j) => j.author(),
            Item::Poll(p) => p.author(),
            Item::Pollopt(p) => p.author(),
        }
    }
}

impl Story {
    /// A story's title.
    pub fn title(&self) -> (r: Option<&str>)
        ensures
            (match r {
                Option::Some(t) => t@ == self.title@,
                Option::None => false,
            }),
    {
        Option::Some(self.title.as_str())
    }

    /// A story's author.
    pub fn author(&self) -> (r: Option<&str>)
        ensures
            (match r {
                Option::Some(a) => a@ == self.by@,
                Option::None => false,
            }),
    {
        Option::Some(self.by.as_str())
    }

    /// The comment ids a story's comment query resolves: the first `limit`
    /// of its ranked comment list, none when no limit is given, none when
    /// the story has no comments at all.
    pub fn kids_selection(&self, limit: Option<usize>) -> (r: Vec<u32>)
        ensures
            r@ == (match self@.kids {
                Option::Some(ks) => ks.take(clamped(kids_limit(limit), ks.len())),
                Option::None => Seq::<u32>::empty(),
            }),
    {
        let n = match limit {
            Option::Some(l) => l,
            Option::None => 0,
        };
        match &self.kids {
            Option::Some(v) => first_n(v, n),
            Option::None => Vec::new(),
        }
    }
}

impl Comment {
    /// Comments carry no title.
    pub fn title(&self) -> (r: Option<&str>)
        ensures
            r is None,
    {
        Option::None
    }

    /// A comment's author.
    pub fn author(&self) -> (r: Option<&str>)
        ensures
            (match r {
                Option::Some(a) => a@ == self.by@,
                Option::None => false,
            }),
    {
        Option::Some(self.by.as_str())
    }
}

impl Job {
    /// A job's title.
    pub fn title(&self) -> (r: Option<&str>)
        ensures
            (match r {
                Option::Some(t) => t@ == self.title@,
                Option::None => false,
            }),
    {
        Option::Some(self.title.as_str())
    }

    /// Jobs are posted without an author.
    pub fn author(&self) -> (r: Option<&str>)
        ensures
            r is None,
    {
        Option::None
    }
}

impl Poll {
    /// A poll's title.
    pub fn title(&self) -> (r: Option<&str>)
        ensures
            (match r {
                Option::Some(t) => t@ == self.title@,
                Option::None => false,
            }),
    {
        Option::Some(self.title.as_str())
    }

    /// A poll's author.
    pub fn author(&self) -> (r: Option<&str>)
        ensures
            (match r {
                Option::Some(a) => a@ == self.by@,
                Option::None => false,
            }),
    {
        Option::Some(self.by.as_str())
    }
}

impl Pollopt {
    /// Poll options carry no title.
    pub fn title(&self) -> (r: Option<&str>)
        ensures
            r is None,
    {
        Option::None
    }

    /// A poll option's author.
    pub fn author(&self) -> (r: Option<&str>)
        ensures
            (match r {
                Option::Some(a) => a@ == self.by@,
                Option::None => false,
            }),
    {
        Option::Some(self.by.as_str())
    }
}

/// Copy a list of ids.
pub(crate) fn clone_ids(v: &Vec<u32>) -> (r: Vec<u32>)
    ensures
        r@ == v@,
{
    let r = v.clone();
    proof {
        assert(r@ =~= v@);
    }
    r
}

/// Copy an optional list of ids.
fn clone_opt_ids(o: &Option<Vec<u32>>) -> (r: Option<Vec<u32>>)
    ensures
        opt_ids_view(r) == opt_ids_view(*o),
{
    match o {
        Option::Some(v) => Option::Some(clone_ids(v)),
        Option::None => Option::None,
    }
}

/// Copy an optional piece of text.
fn clone_opt_text(o: &Option<String>) -> (r: Option<String>)
    ensures
        opt_text_view(r) == opt_text_view(*o),
{
    match o {
        Option::Some(s) => Option::Some(s.clone()),
        Option::None => Option::None,
    }
}

impl Clone for Story {
    /// A copy with the same ghost image.
    fn clone(&self) -> (r: Self)
        ensures
            r@ == self@,
    {
        Story {
            id: self.id,
            descendants: self.descendants,
            by: self.by.clone(),
            kids: clone_opt_ids(&self.kids),
            score: self.score,
            title: self.title.clone(),
            url: clone_opt_text(&self.url),
            text: clone_opt_text(&self.text),
            time: self.time,
        }
    }
}

impl Clone for Comment {
    /// A copy with the same ghost image.
    fn clone(&self) -> (r: Self)
        ensures
            r@ == self@,
    {
        Comment {
            id: self.id,
            by: self.by.clone(),
            kids: clone_opt_ids(&self.kids),
            parent: self.parent,
            text: self.text.clone(),
            time: self.time,
        }
    }
}

impl Clone for Job {
    /// A copy with the same ghost image.
    fn clone(&self) -> (r: Self)
        ensures
            r@ == self@,
    {
        Job {
            id: self.id,
            score: self.score,
            text: clone_opt_text(&self.text),
            time: self.time,
            title: self.title.clone(),
            url: clone_opt_text(&self.url),
        }
    }
}

impl Clone for Poll {
    /// A copy with the same ghost image.
    fn clone(&self) -> (r: Self)
        ensures
            r@ == self@,
    {
        Poll {
            id: self.id,
            by: self.by.clone(),
            descendants: self.descendants,
            kids: clone_opt_ids(&self.kids),
            parts: clone_opt_ids(&self.parts),
            score: self.score,
            title: self.title.clone(),
            text: clone_opt_text(&self.text),
            time: self.time,
        }
    }
}

impl Clone for Pollopt {
    /// A copy with the same ghost image.
    fn clone(&self) -> (r: Self)
        ensures
            r@ == self@,
    {
        Pollopt {
            id: self.id,
            by: self.by.clone(),
            poll: self.poll,
            score: self.score,
            text: clone_opt_text(&self.text),
            time: self.time,
        }
    }
}

impl Clone for Item {
    /// A copy with the same ghost image.
    fn clone(&self) -> (r: Self)
        ensures
            r@ == self@,
    {
        match self {
            Item::Story(s) => Item::Story(s.clone()),
            Item::Comment(c) => Item::Comment(c.clone()),
            Item::Job(j) => Item::Job(j.clone()),
            Item::Poll(p) => Item::Poll(p.clone()),
            Item::Pollopt(p) => Item::Pollopt(p.clone()),
        }
    }
}

/// A user profile.
#[derive(Debug)]
pub struct User {
    /// The user's unique username. Case-sensitive.
    pub id: String,
    /// Creation date of the user, in Unix Time.
    pub created: u64,
    /// The user's karma.
    pub karma: u32,
    /// Delay in minutes between a comment's creation and its visibility to
    /// other users.
    pub delay: Option<u32>,
    /// The user's optional self-description. HTML.
    pub about: Option<String>,
    /// List of the user's stories, polls and comments.
    pub submitted: Vec<u32>,
}

/// A list of recently updated items and users.
#[derive(Debug)]
pub struct Updates {
    /// A list of recently changed items.
    pub items: Vec<u32>,
    /// A list of recently changed usernames.
    pub profiles: Vec<String>,
}

} // verus!
