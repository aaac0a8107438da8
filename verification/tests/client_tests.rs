use ctf_sniper::ctfd::{
    int_to_string, submit_request_body, Challenge, ChallengeBrief, Ctfd, CtfdError, Expansion,
};
use ctf_sniper::download::Download;
use ctf_sniper::json::render_json;
use ctf_sniper::normalize_base_url;

fn detail(name: &str, id: i32) -> Challenge {
    Challenge {
        name: name.to_owned(),
        id,
        category: "misc".to_owned(),
        description: String::new(),
        connection_info: None,
        value: 100,
        solved_by_me: false,
        files: vec!["/files/x.zip".to_owned()],
    }
}

#[test]
fn detail_with_requested_id_is_handed_back() {
    let c = detail("Web 1", 5);
    match Ctfd::check_detail(5, c) {
        Ok(c) => assert_eq!(c.id, 5),
        Err(_) => panic!("a matching id is no violation"),
    }
}

#[test]
fn detail_with_other_id_is_withheld_as_a_contract_violation() {
    let c = detail("Web 1", 6);
    match Ctfd::check_detail(5, c) {
        Err(CtfdError::IdMismatch { requested, got }) => {
            assert_eq!(requested, 5);
            assert_eq!(got, 6);
        }
        _ => panic!("a mismatched id must be a contract violation, not a challenge"),
    }
}

#[test]
fn listing_order_gives_the_expansion_order() {
    let briefs = vec![
        ChallengeBrief {
            name: "B".to_owned(),
            id: 9,
            category: "x".to_owned(),
            value: 1,
            solved_by_me: false,
        },
        ChallengeBrief {
            name: "A".to_owned(),
            id: 4,
            category: "x".to_owned(),
            value: 1,
            solved_by_me: true,
        },
    ];
    assert_eq!(Ctfd::ids_of(&briefs), vec![9, 4]);
}

#[test]
fn expansion_walks_ids_in_listing_order_and_fails_fast() {
    let briefs = vec![
        ChallengeBrief {
            name: "B".to_owned(),
            id: 9,
            category: "x".to_owned(),
            value: 1,
            solved_by_me: false,
        },
        ChallengeBrief {
            name: "A".to_owned(),
            id: 4,
            category: "x".to_owned(),
            value: 1,
            solved_by_me: true,
        },
    ];
    let mut exp = Expansion::new(&briefs);
    assert_eq!(exp.next_id(), Some(9));
    assert!(exp.accept(detail("B", 9)).is_ok());
    assert_eq!(exp.next_id(), Some(4));
    // a wrong id is refused and moves nothing forward
    assert!(matches!(
        exp.accept(detail("not A", 5)),
        Err(CtfdError::IdMismatch { requested: 4, got: 5 })
    ));
    assert_eq!(exp.next_id(), Some(4));
    assert!(exp.accept(detail("A", 4)).is_ok());
    assert_eq!(exp.next_id(), None);
    let names: Vec<String> = exp.done.iter().map(|c| c.name.clone()).collect();
    assert_eq!(names, vec!["B".to_owned(), "A".to_owned()]);
}

#[test]
fn decimal_text_is_exact() {
    assert_eq!(int_to_string(0), "0");
    assert_eq!(int_to_string(7), "7");
    assert_eq!(int_to_string(42), "42");
    assert_eq!(int_to_string(100500), "100500");
    assert_eq!(int_to_string(-13), "-13");
    assert_eq!(int_to_string(i64::MAX), "9223372036854775807");
    assert_eq!(int_to_string(i64::MIN), "-9223372036854775808");
}

#[test]
fn endpoint_paths_are_the_platform_s() {
    assert_eq!(Ctfd::challenges_path(), "api/v1/challenges");
    assert_eq!(Ctfd::challenge_path(42), "api/v1/challenges/42");
    assert_eq!(Ctfd::attempt_path(), "api/v1/challenges/attempt");
}

#[test]
fn session_header_wraps_the_cookie() {
    assert_eq!(Ctfd::session_header("abc123"), "session=abc123;");
}

#[test]
fn base_url_gets_exactly_one_trailing_slash() {
    assert_eq!(normalize_base_url("https://ctf.example/root"), "https://ctf.example/root/");
    assert_eq!(normalize_base_url("https://ctf.example/root/"), "https://ctf.example/root/");
}

#[test]
fn client_keeps_its_configuration() {
    let ctf = Ctfd::new("https://ctf.example/".to_owned(), "session=tok;".to_owned());
    assert_eq!(ctf.base_url(), "https://ctf.example/");
    assert_eq!(ctf.session(), "session=tok;");
}

#[test]
fn task_projection_keeps_id_name_and_downloads() {
    let t = Ctfd::into_task(detail("Web 1", 5));
    assert_eq!(t._id, 5);
    assert_eq!(t.name, "Web 1");
    assert_eq!(t.downloads, vec!["/files/x.zip".to_owned()]);
}

#[test]
fn submit_body_renders_id_as_text_and_flag_verbatim() {
    let body = submit_request_body(42, "flag{a \"quoted\" one}");
    let text = render_json(&body);
    assert_eq!(text, "{\"challenge_id\":\"42\",\"submission\":\"flag{a \\\"quoted\\\" one}\"}");
}

#[test]
fn folder_names_keep_word_breaks_and_drop_the_rest() {
    assert_eq!(Download::sanitize_name("Web Challenge 1"), "Web_Challenge_1");
    assert_eq!(Download::sanitize_name("ROP: it's easy!"), "ROP_its_easy");
    assert_eq!(Download::sanitize_name("héllo wörld"), "hllo_wrld");
    assert_eq!(Download::sanitize_name(""), "");
}
