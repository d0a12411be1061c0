use world_scrambler::api::FetchError;
use world_scrambler::api::WordApi;
use world_scrambler::api::parse_words;
use world_scrambler::api::scramble_word;
use world_scrambler::anagram::is_anagram;

fn buffer_with(words: &[&str]) -> WordApi {
    let mut api = WordApi::default();
    api.complete_refill(words.iter().map(|w| String::from(*w)).collect());
    api
}

#[test]
fn default_buffer_shape() {
    let api = WordApi::default();
    assert!(api.buffer.is_empty());
    assert_eq!(api.word_length, 5);
    assert_eq!(api.num_words, 10);
    assert!(!api.requested);
}

#[test]
fn refill_of_n_words_supports_exactly_n_takes() {
    let mut api = buffer_with(&["one", "two", "three"]);
    for _ in 0..3 {
        let (word, ticket) = api.try_take_word();
        assert!(word.is_some());
        assert!(ticket.is_none());
    }
    let (word, ticket) = api.try_take_word();
    assert!(word.is_none());
    assert!(ticket.is_some());
}

#[test]
fn takes_yield_each_word_once_most_recent_first() {
    let mut api = buffer_with(&["first", "second"]);
    let (scrambled_a, original_a) = api.get_next_word().unwrap();
    assert_eq!(original_a, "second");
    assert!(is_anagram(&scrambled_a, &original_a));
    let (scrambled_b, original_b) = api.get_next_word().unwrap();
    assert_eq!(original_b, "first");
    assert!(is_anagram(&scrambled_b, &original_b));
    assert!(api.get_next_word().is_none());
}

#[test]
fn get_next_word_never_touches_the_flag() {
    let mut api = WordApi::default();
    assert!(api.get_next_word().is_none());
    assert!(!api.requested);
}

#[test]
fn at_most_one_fetch_dispatched_while_refill_pending() {
    let mut api = WordApi::default();
    let mut dispatched: u32 = 0;
    // Many takes against an empty buffer: only the first hands out a ticket,
    // so the count of outstanding fetches never exceeds one.
    for _ in 0..10 {
        let (word, ticket) = api.try_take_word();
        assert!(word.is_none());
        if ticket.is_some() {
            dispatched += 1;
        }
        assert!(dispatched <= 1);
    }
    assert_eq!(dispatched, 1);
    assert!(api.requested);
}

#[test]
fn ticket_carries_the_fetch_shape() {
    let mut api = WordApi::default();
    api.word_length = 7;
    api.num_words = 4;
    let (_, ticket) = api.try_take_word();
    let ticket = ticket.unwrap();
    assert_eq!(ticket.count, 4);
    assert_eq!(ticket.length, 7);
}

#[test]
fn failed_refill_clears_flag_and_allows_retry() {
    let mut api = WordApi::default();
    let (_, first_ticket) = api.try_take_word();
    assert!(first_ticket.is_some());
    // While the fetch is outstanding, no second ticket.
    let (_, blocked) = api.try_take_word();
    assert!(blocked.is_none());
    // The fetch fails: the buffer is unchanged and the flag is cleared.
    api.fail_refill();
    assert!(api.buffer.is_empty());
    assert!(!api.requested);
    // The next take triggers a fresh refill, and a later success lands.
    let (word, retry_ticket) = api.try_take_word();
    assert!(word.is_none());
    assert!(retry_ticket.is_some());
    api.complete_refill(vec![String::from("again")]);
    assert!(!api.requested);
    let (word, _) = api.try_take_word();
    assert_eq!(word.unwrap().1, "again");
}

#[test]
fn completed_refill_appends_and_clears_flag() {
    let mut api = buffer_with(&["kept"]);
    let (_, _) = api.try_take_word();
    assert!(api.buffer.is_empty());
    let (_, ticket) = api.try_take_word();
    assert!(ticket.is_some());
    api.complete_refill(vec![String::from("newer"), String::from("newest")]);
    assert_eq!(api.buffer, vec![String::from("newer"), String::from("newest")]);
    assert!(!api.requested);
}

#[test]
fn increase_word_length_steps_by_one() {
    let mut api = WordApi::default();
    api.increase_word_length();
    assert_eq!(api.word_length, 6);
}

#[test]
fn parse_words_reads_json_style_payload() {
    let r = parse_words("[\"tacos\",\"coast\",\"pears\"]").unwrap();
    assert_eq!(
        r,
        vec![String::from("tacos"), String::from("coast"), String::from("pears")]
    );
}

#[test]
fn parse_words_strips_stray_characters_inside_fields() {
    let r = parse_words("ab]c,\"de\"").unwrap();
    assert_eq!(r, vec![String::from("abc"), String::from("de")]);
}

#[test]
fn parse_words_drops_empty_fields() {
    let r = parse_words("a,,b,").unwrap();
    assert_eq!(r, vec![String::from("a"), String::from("b")]);
}

#[test]
fn parse_words_empty_payloads_are_empty_results() {
    assert_eq!(parse_words(""), Err(FetchError::EmptyResult));
    assert_eq!(parse_words("[]"), Err(FetchError::EmptyResult));
    assert_eq!(parse_words(",,"), Err(FetchError::EmptyResult));
    assert_eq!(parse_words("\"\",\"\""), Err(FetchError::EmptyResult));
}

#[test]
fn scramble_of_two_letters_is_one_of_two_arrangements() {
    let s = scramble_word(String::from("ab"));
    assert!(s == "ab" || s == "ba");
}
