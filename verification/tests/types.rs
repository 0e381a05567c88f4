use hnloader::types::{Comment, Item, Job, Poll, Pollopt, Story, Updates, User};

fn sample_story() -> Story {
    Story {
        id: 42,
        descendants: 3,
        by: String::from("alice"),
        kids: Some(vec![11, 12, 13]),
        score: 99,
        title: String::from("a headline"),
        url: Some(String::from("https://example.invalid/a")),
        text: None,
        time: 1_700_000_000,
    }
}

#[test]
fn story_accessors() {
    let story = sample_story();
    assert_eq!(story.title(), Some("a headline"));
    assert_eq!(story.author(), Some("alice"));
    let item = Item::Story(story);
    assert_eq!(item.id(), 42);
    assert_eq!(item.title(), Some("a headline"));
    assert_eq!(item.author(), Some("alice"));
}

#[test]
fn comment_has_author_but_no_title() {
    let comment = Comment {
        id: 7,
        by: String::from("bob"),
        kids: None,
        parent: 42,
        text: String::from("<p>hi</p>"),
        time: 1_700_000_001,
    };
    assert_eq!(comment.title(), None);
    assert_eq!(comment.author(), Some("bob"));
    let item = Item::Comment(comment);
    assert_eq!(item.id(), 7);
    assert_eq!(item.title(), None);
    assert_eq!(item.author(), Some("bob"));
}

#[test]
fn job_has_title_but_no_author() {
    let job = Job {
        id: 8,
        score: 5,
        text: None,
        time: 1_700_000_002,
        title: String::from("hiring"),
        url: None,
    };
    assert_eq!(job.title(), Some("hiring"));
    assert_eq!(job.author(), None);
    let item = Item::Job(job);
    assert_eq!(item.id(), 8);
    assert_eq!(item.title(), Some("hiring"));
    assert_eq!(item.author(), None);
}

#[test]
fn poll_and_pollopt_accessors() {
    let poll = Poll {
        id: 9,
        by: String::from("carol"),
        descendants: 0,
        kids: None,
        parts: Some(vec![10]),
        score: 2,
        title: String::from("which?"),
        text: None,
        time: 1_700_000_003,
    };
    assert_eq!(poll.title(), Some("which?"));
    assert_eq!(poll.author(), Some("carol"));
    assert_eq!(Item::Poll(poll).id(), 9);

    let opt = Pollopt {
        id: 10,
        by: String::from("carol"),
        poll: 9,
        score: 1,
        text: Some(String::from("this one")),
        time: 1_700_000_004,
    };
    assert_eq!(opt.title(), None);
    assert_eq!(opt.author(), Some("carol"));
    let item = Item::Pollopt(opt);
    assert_eq!(item.id(), 10);
    assert_eq!(item.title(), None);
    assert_eq!(item.author(), Some("carol"));
}

#[test]
fn kids_selection_takes_a_prefix_in_ranked_order() {
    let story = sample_story();
    assert_eq!(story.kids_selection(Some(2)), vec![11, 12]);
    assert_eq!(story.kids_selection(Some(9)), vec![11, 12, 13]);
    assert_eq!(story.kids_selection(None), Vec::<u32>::new());
}

#[test]
fn kids_selection_of_a_childless_story_is_empty() {
    let mut story = sample_story();
    story.kids = None;
    assert_eq!(story.kids_selection(Some(5)), Vec::<u32>::new());
    assert_eq!(story.kids_selection(None), Vec::<u32>::new());
}

#[test]
fn item_clone_keeps_every_field() {
    let item = Item::Story(sample_story());
    let copy = item.clone();
    assert_eq!(copy.id(), item.id());
    assert_eq!(copy.title(), item.title());
    assert_eq!(copy.author(), item.author());
    match (copy, item) {
        (Item::Story(a), Item::Story(b)) => {
            assert_eq!(a.kids, b.kids);
            assert_eq!(a.url, b.url);
            assert_eq!(a.score, b.score);
            assert_eq!(a.time, b.time);
        }
        _ => panic!("variant changed under clone"),
    }
}

#[test]
fn user_and_updates_are_plain_records() {
    let user = User {
        id: String::from("dave"),
        created: 1_600_000_000,
        karma: 12,
        delay: None,
        about: Some(String::from("hello")),
        submitted: vec![1, 2, 3],
    };
    assert_eq!(user.submitted.len(), 3);

    let updates = Updates {
        items: vec![4, 5],
        profiles: vec![String::from("dave"), String::from("erin")],
    };
    assert_eq!(updates.items, vec![4, 5]);
    assert_eq!(updates.profiles.len(), 2);
}
