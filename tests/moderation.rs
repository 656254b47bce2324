use chat_relay::moderation::{moderation_notice, Categories, APPROVAL};

fn only(set: fn(&mut Categories)) -> Categories {
    let mut c = Categories::default();
    set(&mut c);
    c
}

#[test]
fn no_flag_is_not_flagged() {
    assert!(!Categories::default().is_flagged());
}

#[test]
fn each_single_flag_is_flagged() {
    let all: Vec<fn(&mut Categories)> = vec![
        |c| c.hate = true,
        |c| c.hate_threatening = true,
        |c| c.self_harm = true,
        |c| c.sexual = true,
        |c| c.sexual_minors = true,
        |c| c.violence = true,
        |c| c.violence_graphic = true,
    ];
    for set in all {
        assert!(only(set).is_flagged());
    }
}

#[test]
fn unflagged_summary_is_the_approval() {
    assert_eq!(Categories::default().summary(), "Jesus is happy with you");
    assert_eq!(APPROVAL, "Jesus is happy with you");
}

#[test]
fn single_label_summary() {
    let c = only(|c| c.self_harm = true);
    assert_eq!(
        c.summary(),
        "What you just said is suicidal. Jesus is not happy with you"
    );
}

#[test]
fn labels_keep_their_order() {
    let c = Categories {
        hate: false,
        hate_threatening: false,
        self_harm: false,
        sexual: false,
        sexual_minors: true,
        violence: false,
        violence_graphic: false,
    };
    let mut c2 = c;
    c2.hate = true;
    assert_eq!(
        c2.summary(),
        "What you just said is hateful, involving minors. Jesus is not happy with you"
    );
    assert_eq!(c.labels(), vec!["involving minors"]);
}

#[test]
fn both_violence_flags_share_one_label() {
    let c = Categories {
        violence: true,
        violence_graphic: true,
        ..Categories::default()
    };
    assert_eq!(c.labels(), vec!["violent"]);
    let g = only(|c| c.violence_graphic = true);
    assert_eq!(
        g.summary(),
        "What you just said is violent. Jesus is not happy with you"
    );
}

#[test]
fn every_flag_names_every_label() {
    let c = Categories {
        hate: true,
        hate_threatening: true,
        self_harm: true,
        sexual: true,
        sexual_minors: true,
        violence: true,
        violence_graphic: true,
    };
    assert_eq!(
        c.summary(),
        "What you just said is hateful, threatening, suicidal, sexual, involving minors, violent. Jesus is not happy with you"
    );
}

#[test]
fn flagged_summary_names_set_and_omits_unset_categories() {
    let c = Categories {
        hate_threatening: true,
        sexual: true,
        ..Categories::default()
    };
    let s = c.summary();
    assert!(!s.is_empty());
    assert!(s.contains("threatening"));
    assert!(s.contains("sexual"));
    assert!(!s.contains("hateful"));
    assert!(!s.contains("suicidal"));
    assert!(!s.contains("minors"));
    assert!(!s.contains("violent"));
}

#[test]
fn notice_only_for_a_flagged_verdict() {
    assert_eq!(moderation_notice(None), None);
    assert_eq!(moderation_notice(Some(Categories::default())), None);
    let c = only(|c| c.hate = true);
    assert_eq!(
        moderation_notice(Some(c)),
        Some("What you just said is hateful. Jesus is not happy with you".to_string())
    );
}
