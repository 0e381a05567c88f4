use hnloader::loader::{
    collect_results, first_n, present_in_order, select_in_order, top_selection, FetchResult,
    ItemLoader,
};
use hnloader::types::{Item, Story};
use hnloader::FetchError;

fn story(id: u32) -> Item {
    Item::Story(Story {
        id,
        descendants: 0,
        by: String::from("author"),
        kids: None,
        score: 1,
        title: format!("story-{}", id),
        url: None,
        text: None,
        time: 1_700_000_000,
    })
}

#[test]
fn window_fetches_each_distinct_key_once() {
    let mut loader = ItemLoader::new();
    let t0 = loader.load_many(&vec![1, 2, 1, 3]);
    let t1 = loader.load_many(&vec![2, 4]);
    assert_eq!(t0, 0);
    assert_eq!(t1, 1);
    let plan = loader.dispatch();
    assert_eq!(plan.num_fetches(), 4);
    assert_eq!(plan.distinct_keys(), &vec![1, 2, 3, 4]);
    assert_eq!(plan.num_callers(), 2);
}

#[test]
fn load_many_preserves_caller_order() {
    let mut loader = ItemLoader::new();
    loader.load_many(&vec![1, 2, 1, 3]);
    let plan = loader.dispatch();
    assert_eq!(plan.num_fetches(), 3);
    let outcomes = vec![
        FetchResult::present(1, story(1)),
        FetchResult::present(2, story(2)),
        FetchResult::present(3, story(3)),
    ];
    let mut slices = plan.resolve(&outcomes);
    assert_eq!(slices.len(), 1);
    let slice = slices.remove(0);
    assert_eq!(slice.len(), 4);
    let ids: Vec<Option<u32>> = slice
        .iter()
        .map(|o| o.as_ref().map(|it| it.id()))
        .collect();
    assert_eq!(ids, vec![Some(1), Some(2), Some(1), Some(3)]);
}

#[test]
fn not_found_key_is_omitted_not_an_error() {
    let mut loader = ItemLoader::new();
    loader.load(7);
    let plan = loader.dispatch();
    let outcomes = vec![FetchResult::absent(7)];
    let slices = plan.resolve(&outcomes);
    assert_eq!(slices.len(), 1);
    assert_eq!(slices[0].len(), 1);
    assert!(slices[0][0].is_none());
}

#[test]
fn failed_fetch_is_isolated_from_siblings() {
    let mut loader = ItemLoader::new();
    loader.load(1);
    loader.load(2);
    loader.load(3);
    let plan = loader.dispatch();
    let outcomes = vec![
        FetchResult::failed(1, FetchError::Transport),
        FetchResult::present(2, story(2)),
        FetchResult::failed(3, FetchError::Decode),
    ];
    let slices = plan.resolve(&outcomes);
    assert_eq!(slices.len(), 3);
    assert!(slices[0][0].is_none());
    assert_eq!(slices[1][0].as_ref().map(|it| it.id()), Some(2));
    assert!(slices[2][0].is_none());
}

#[test]
fn keys_after_dispatch_start_a_new_window() {
    let mut loader = ItemLoader::new();
    loader.load(1);
    let plan_a = loader.dispatch();
    loader.load(9);
    let plan_b = loader.dispatch();
    assert_eq!(plan_a.distinct_keys(), &vec![1]);
    assert_eq!(plan_b.distinct_keys(), &vec![9]);
}

#[test]
fn repeated_key_across_windows_is_fetched_afresh() {
    let mut loader = ItemLoader::new();
    loader.load(5);
    let first = loader.dispatch();
    loader.load(5);
    let second = loader.dispatch();
    assert_eq!(first.num_fetches(), 1);
    assert_eq!(second.num_fetches(), 1);
    assert_eq!(first.distinct_keys(), &vec![5]);
    assert_eq!(second.distinct_keys(), &vec![5]);
}

#[test]
fn top_two_stories_end_to_end() {
    let ranked = vec![101, 102, 103, 104];
    let wanted = top_selection(&ranked, Some(2));
    assert_eq!(wanted, vec![101, 102]);
    let mut loader = ItemLoader::new();
    let ticket = loader.load_many(&wanted);
    let plan = loader.dispatch();
    assert_eq!(plan.num_fetches(), 2);
    let outcomes: Vec<FetchResult> = plan
        .distinct_keys()
        .iter()
        .map(|&id| FetchResult::present(id, story(id)))
        .collect();
    let slices = plan.resolve(&outcomes);
    let items = present_in_order(&slices[ticket]);
    let ids: Vec<u32> = items.iter().map(|it| it.id()).collect();
    assert_eq!(ids, vec![101, 102]);
}

#[test]
fn shared_key_is_distributed_to_every_caller() {
    let mut loader = ItemLoader::new();
    loader.load(2);
    loader.load_many(&vec![2, 3]);
    let plan = loader.dispatch();
    assert_eq!(plan.num_fetches(), 2);
    let outcomes = vec![
        FetchResult::present(2, story(2)),
        FetchResult::present(3, story(3)),
    ];
    let slices = plan.resolve(&outcomes);
    assert_eq!(slices.len(), 2);
    assert_eq!(slices[0][0].as_ref().map(|it| it.id()), Some(2));
    assert_eq!(slices[1][0].as_ref().map(|it| it.id()), Some(2));
    assert_eq!(slices[1][1].as_ref().map(|it| it.id()), Some(3));
}

#[test]
fn result_map_holds_only_successes() {
    let outcomes = vec![
        FetchResult::present(1, story(1)),
        FetchResult::absent(2),
        FetchResult::failed(3, FetchError::Transport),
    ];
    let m = collect_results(&outcomes);
    assert_eq!(m.get(1).map(|it| it.id()), Some(1));
    assert!(m.get(2).is_none());
    assert!(m.get(3).is_none());
    assert!(m.get(4).is_none());
}

#[test]
fn selection_answers_duplicates_equally() {
    let outcomes = vec![FetchResult::present(8, story(8))];
    let m = collect_results(&outcomes);
    let slice = select_in_order(&vec![8, 9, 8], &m);
    assert_eq!(slice.len(), 3);
    assert_eq!(slice[0].as_ref().map(|it| it.id()), Some(8));
    assert!(slice[1].is_none());
    assert_eq!(slice[2].as_ref().map(|it| it.id()), Some(8));
}

#[test]
fn empty_window_dispatches_nothing() {
    let mut loader = ItemLoader::new();
    let plan = loader.dispatch();
    assert_eq!(plan.num_fetches(), 0);
    assert_eq!(plan.num_callers(), 0);
    let slices = plan.resolve(&Vec::new());
    assert!(slices.is_empty());
}

#[test]
fn caller_with_no_keys_gets_an_empty_slice() {
    let mut loader = ItemLoader::new();
    let ticket = loader.load_many(&Vec::new());
    let plan = loader.dispatch();
    assert_eq!(plan.num_fetches(), 0);
    let slices = plan.resolve(&Vec::new());
    assert_eq!(slices.len(), 1);
    assert!(slices[ticket].is_empty());
}

#[test]
fn present_in_order_drops_omissions_and_keeps_order() {
    let slice = vec![
        Some(story(3)),
        None,
        Some(story(1)),
        None,
        Some(story(2)),
    ];
    let items = present_in_order(&slice);
    let ids: Vec<u32> = items.iter().map(|it| it.id()).collect();
    assert_eq!(ids, vec![3, 1, 2]);
}

#[test]
fn prefix_helpers_clamp_to_length() {
    assert_eq!(first_n(&vec![1, 2, 3], 5), vec![1, 2, 3]);
    assert_eq!(first_n(&vec![1, 2, 3], 2), vec![1, 2]);
    assert_eq!(first_n(&vec![1, 2, 3], 0), Vec::<u32>::new());
    assert_eq!(first_n(&Vec::new(), 4), Vec::<u32>::new());
}

#[test]
fn top_selection_defaults_to_ten() {
    let ids: Vec<u32> = (1..=12).collect();
    assert_eq!(top_selection(&ids, None), (1..=10).collect::<Vec<u32>>());
    assert_eq!(top_selection(&ids, Some(3)), vec![1, 2, 3]);
    assert_eq!(top_selection(&vec![1, 2], None), vec![1, 2]);
    assert_eq!(top_selection(&ids, Some(0)), Vec::<u32>::new());
}
