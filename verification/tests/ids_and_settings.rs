use animus_subject_default::config::{
    DefaultTaskConfig, DEFAULT_DB_PATH, DEFAULT_ID_PAD, DEFAULT_ID_PREFIX, SUBJECT_KIND,
};
use animus_subject_default::methods::{add_kind_prefix, strip_kind_prefix, TASK_KIND};
use animus_subject_default::store::id_gen::next_sequential_id;

fn some(s: &str) -> Option<String> {
    Some(s.to_string())
}

#[test]
fn defaults_match_in_tree_convention() {
    let cfg = DefaultTaskConfig::new("/tmp/tasks.db");
    assert_eq!(cfg.db_path, "/tmp/tasks.db");
    assert_eq!(cfg.id_prefix, "TASK-");
    assert_eq!(cfg.id_pad, 3);
}

#[test]
fn kind_constant_matches_config() {
    assert_eq!(TASK_KIND, SUBJECT_KIND);
}

#[test]
fn unset_settings_have_their_defaults() {
    let cfg = DefaultTaskConfig::from_settings(None, None, None).unwrap();
    assert_eq!(cfg.db_path, DEFAULT_DB_PATH);
    assert_eq!(cfg.db_path, ".animus/subjects/tasks.db");
    assert_eq!(cfg.id_prefix, DEFAULT_ID_PREFIX);
    assert_eq!(cfg.id_pad, DEFAULT_ID_PAD);
}

#[test]
fn empty_settings_count_as_unset() {
    let cfg = DefaultTaskConfig::from_settings(some(""), some(""), some("")).unwrap();
    assert_eq!(cfg.db_path, ".animus/subjects/tasks.db");
    assert_eq!(cfg.id_prefix, "TASK-");
    assert_eq!(cfg.id_pad, 3);
}

#[test]
fn given_settings_are_taken() {
    let cfg = DefaultTaskConfig::from_settings(some("/x/y.db"), some("T#"), some("5")).unwrap();
    assert_eq!(cfg.db_path, "/x/y.db");
    assert_eq!(cfg.id_prefix, "T#");
    assert_eq!(cfg.id_pad, 5);
    let copy = cfg.clone();
    assert_eq!(copy.db_path, "/x/y.db");
    assert_eq!(copy.id_prefix, "T#");
    assert_eq!(copy.id_pad, 5);
}

#[test]
fn pad_widths_are_read_like_unsigned_numbers() {
    for raw in ["0", "7", "+12", "007", "18446744073709551615"] {
        let cfg = DefaultTaskConfig::from_settings(None, None, some(raw)).unwrap();
        assert_eq!(cfg.id_pad, raw.parse::<usize>().unwrap());
    }
}

#[test]
fn pad_widths_that_are_no_numbers_are_errors() {
    for raw in [
        "x",
        "-1",
        "+",
        "-",
        " 3",
        "3 ",
        "1_000",
        "18446744073709551616",
        "99999999999999999999x",
        "9x9999999999999999999999",
        "\u{0663}",
    ] {
        let error = raw.parse::<usize>().unwrap_err();
        let message = DefaultTaskConfig::from_settings(None, None, some(raw)).unwrap_err();
        assert_eq!(
            message,
            format!("ANIMUS_DEFAULT_TASK_ID_PAD must be a non-negative integer: {error}")
        );
    }
}

#[test]
fn empty_yields_first_id() {
    let next = next_sequential_id(&[], "TASK-", 3);
    assert_eq!(next, "TASK-001");
}

#[test]
fn increments_max_suffix() {
    let existing = ["TASK-001", "TASK-009", "TASK-003"];
    let next = next_sequential_id(&existing, "TASK-", 3);
    assert_eq!(next, "TASK-010");
}

#[test]
fn ignores_foreign_prefixes() {
    let existing = ["REQ-014", "TASK-007", "garbage"];
    let next = next_sequential_id(&existing, "TASK-", 3);
    assert_eq!(next, "TASK-008");
}

#[test]
fn matches_in_tree_three_digit_pad() {
    // Width 3 must produce the same string as `{:03}` for every value <= 999.
    for n in 1u32..=999 {
        let id = format!("TASK-{n:03}");
        let next = next_sequential_id(&[id.as_str()], "TASK-", 3);
        let expected = format!("TASK-{:03}", n + 1);
        assert_eq!(next, expected);
    }
}

#[test]
fn suffixes_that_are_no_numbers_are_ignored() {
    let existing = ["TASK-", "TASK-x", "TASK--4", "TASK-4 ", "TASK-4x", "TASK-+", "task-9"];
    assert_eq!(next_sequential_id(&existing, "TASK-", 3), "TASK-001");
    assert_eq!(next_sequential_id(&["TASK-+4"], "TASK-", 3), "TASK-005");
    assert_eq!(next_sequential_id(&["TASK-\u{0663}"], "TASK-", 3), "TASK-001");
}

#[test]
fn numbers_have_no_last_one() {
    for (last, next) in [
        ("4294967294", "4294967295"),
        ("4294967295", "4294967296"),
        ("18446744073709551615", "18446744073709551616"),
        (
            "340282366920938463463374607431768211455",
            "340282366920938463463374607431768211456",
        ),
        (
            "99999999999999999999999999999999999999999999",
            "100000000000000000000000000000000000000000000",
        ),
    ] {
        let id = format!("TASK-{last}");
        assert_eq!(
            next_sequential_id(&[id.as_str(), "TASK-7"], "TASK-", 3),
            format!("TASK-{next}")
        );
        assert_eq!(
            next_sequential_id(&["TASK-7", id.as_str()], "TASK-", 3),
            format!("TASK-{next}")
        );
    }
}

#[test]
fn order_repeats_and_foreign_ids_play_no_part() {
    let plain = next_sequential_id(&["TASK-003", "TASK-012"], "TASK-", 3);
    assert_eq!(plain, "TASK-013");
    for existing in [
        vec!["TASK-012", "TASK-003"],
        vec!["TASK-012", "TASK-003", "TASK-012", "TASK-003"],
        vec!["REQ-099", "TASK-003", "TASK-x99", "garbage", "TASK-012", "TASK-"],
    ] {
        assert_eq!(next_sequential_id(&existing, "TASK-", 3), plain);
    }
}

#[test]
fn numbers_are_compared_by_their_value() {
    let existing = ["TASK-0000000000000000000000008", "TASK-+9", "TASK-07"];
    assert_eq!(next_sequential_id(&existing, "TASK-", 3), "TASK-010");
    assert_eq!(next_sequential_id(&["TASK-000"], "TASK-", 3), "TASK-001");
    assert_eq!(next_sequential_id(&["TASK-0999"], "TASK-", 3), "TASK-1000");
    assert_eq!(next_sequential_id(&["TASK-100", "TASK-99"], "TASK-", 0), "TASK-101");
}

#[test]
fn pad_width_and_prefix_shape_the_id() {
    assert_eq!(next_sequential_id(&["7"], "", 0), "8");
    assert_eq!(next_sequential_id(&["\u{e9}t\u{e9}41"], "\u{e9}t\u{e9}", 4), "\u{e9}t\u{e9}0042");
    assert_eq!(next_sequential_id(&["TASK-999"], "TASK-", 3), "TASK-1000");
}

#[test]
fn ids_count_up_one_by_one() {
    let mut ids: Vec<String> = Vec::new();
    for n in 1..=1200 {
        let slices: Vec<&str> = ids.iter().map(|s| s.as_str()).collect();
        let next = next_sequential_id(&slices, "TASK-", 3);
        assert_eq!(next, format!("TASK-{n:03}"));
        assert!(!ids.contains(&next));
        if n > 3 {
            ids.remove(0);
        }
        ids.push(next);
    }
}

#[test]
fn wire_ids_carry_the_kind_once() {
    assert_eq!(add_kind_prefix("TASK-001"), "task:TASK-001");
    assert_eq!(add_kind_prefix("task:TASK-001"), "task:TASK-001");
    assert_eq!(add_kind_prefix(""), "task:");
    assert_eq!(add_kind_prefix("tas"), "task:tas");
    assert_eq!(add_kind_prefix("Task:1"), "task:Task:1");
    assert_eq!(add_kind_prefix(&add_kind_prefix("\u{df}")), "task:\u{df}");
}

#[test]
fn bare_ids_lose_the_kind_once() {
    assert_eq!(strip_kind_prefix("task:TASK-001"), "TASK-001");
    assert_eq!(strip_kind_prefix("TASK-001"), "TASK-001");
    assert_eq!(strip_kind_prefix("task:task:x"), "task:x");
    assert_eq!(strip_kind_prefix("task:"), "");
    assert_eq!(strip_kind_prefix("requirement:1"), "requirement:1");
    for id in ["TASK-001", "task:TASK-001", "task:task:x", "", "task:"] {
        assert_eq!(strip_kind_prefix(&add_kind_prefix(id)), strip_kind_prefix(id));
    }
}
