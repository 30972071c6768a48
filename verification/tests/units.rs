use ayaka_engine::action::{merge_action, trim_string, Action, ActionText, Switch};
use ayaka_engine::context::Context;
use ayaka_engine::fallbk::Fallback;
use ayaka_engine::game::{Game, GameConfig};
use ayaka_engine::plugin::{
    LineProcessResult, NoopRuntime, PluginRuntime, TextProcessResult,
};
use ayaka_engine::types::FrontendType as Frontend;
use ayaka_engine::record::{GlobalRecord, RawContext};
use ayaka_engine::script::{SubText, Text, VarMap};
use ayaka_engine::smap::StrMap;
use ayaka_engine::types::{EngineError, FrontendType, Locale};
use ayaka_engine::value::{i64_to_dec, u64_to_dec, usize_to_dec, RawValue};

fn empty_game() -> Game {
    Game::new(GameConfig {
        title: "demo".to_string(),
        author: "tester".to_string(),
        base_lang: Locale("en".to_string()),
        paras_path: "paras".to_string(),
        res_path: None,
        start: "p1".to_string(),
        props: StrMap::new(),
    })
}

fn text_action(fragments: &[&str]) -> ActionText {
    let mut t = ActionText::new();
    for f in fragments {
        t.push_back_chars(f.to_string());
        t.push_back_block(String::new());
    }
    t
}

#[test]
fn decimal_rendering_is_exact() {
    assert_eq!(u64_to_dec(0), "0".to_string());
    assert_eq!(u64_to_dec(7), "7".to_string());
    assert_eq!(u64_to_dec(90210), "90210".to_string());
    assert_eq!(usize_to_dec(12), "12".to_string());
    assert_eq!(i64_to_dec(-42), "-42".to_string());
    assert_eq!(i64_to_dec(i64::MIN), "-9223372036854775808".to_string());
    assert_eq!(i64_to_dec(i64::MAX), "9223372036854775807".to_string());
}

#[test]
fn scalar_coercions() {
    assert_eq!(RawValue::Unit.get_str(), String::new());
    assert_eq!(RawValue::Bool(true).get_str(), "true".to_string());
    assert_eq!(RawValue::Bool(false).get_str(), "false".to_string());
    assert_eq!(RawValue::Num(-3).get_str(), "-3".to_string());
    assert_eq!(RawValue::Str("x".to_string()).get_str(), "x".to_string());
    assert!(!RawValue::Unit.get_bool());
    assert!(RawValue::Num(2).get_bool());
    assert!(!RawValue::Num(0).get_bool());
    assert!(RawValue::Str("a".to_string()).get_bool());
    assert!(!RawValue::Str(String::new()).get_bool());
}

#[test]
fn trim_removes_outer_whitespace_only() {
    assert_eq!(trim_string(&"  a b \t\n".to_string()), "a b".to_string());
    assert_eq!(trim_string(&"".to_string()), "".to_string());
    assert_eq!(trim_string(&" \t ".to_string()), "".to_string());
    assert_eq!(trim_string(&"x".to_string()), "x".to_string());
}

#[test]
fn string_map_holds_latest_value_per_key() {
    let mut m: StrMap<RawValue> = StrMap::new();
    m.set_value("a".to_string(), RawValue::Num(1));
    m.set_value("b".to_string(), RawValue::Num(2));
    m.set_value("a".to_string(), RawValue::Num(3));
    assert_eq!(m.len(), 2);
    assert_eq!(m.get(&"a".to_string()), Some(&RawValue::Num(3)));
    assert_eq!(m.get(&"b".to_string()), Some(&RawValue::Num(2)));
    m.remove_key(&"a".to_string());
    assert_eq!(m.get(&"a".to_string()), None);
    let mut other: StrMap<RawValue> = StrMap::new();
    other.set_value("b".to_string(), RawValue::Num(9));
    other.set_value("c".to_string(), RawValue::Num(4));
    m.extend_from(other);
    assert_eq!(m.get(&"b".to_string()), Some(&RawValue::Num(9)));
    assert_eq!(m.get(&"c".to_string()), Some(&RawValue::Num(4)));
}

#[test]
fn merging_equal_text_actions_changes_nothing() {
    let a = text_action(&["hi", "there"]);
    let b = text_action(&["hi", "there"]);
    let reference = text_action(&["hi", "there"]);
    let merged = merge_action(Fallback::new(Some(Action::Text(a)), Some(Action::Text(b))))
        .expect("same variant merges");
    match merged {
        Action::Text(t) => {
            assert_eq!(t.full_text(), reference.full_text());
            assert_eq!(t.text.len(), reference.text.len());
            assert_eq!(t.ch_key, reference.ch_key);
            assert_eq!(t.character, reference.character);
        }
        _ => panic!("expected a text action"),
    }
}

#[test]
fn merge_takes_labels_from_primary_and_flags_from_secondary() {
    let primary = vec![
        Switch {
            text: "Oui".to_string(),
            enabled: true,
        },
        Switch {
            text: "Non".to_string(),
            enabled: true,
        },
    ];
    let secondary = vec![
        Switch {
            text: "Yes".to_string(),
            enabled: false,
        },
        Switch {
            text: "No".to_string(),
            enabled: true,
        },
    ];
    let merged = merge_action(Fallback::new(
        Some(Action::Switches(primary)),
        Some(Action::Switches(secondary)),
    ))
    .expect("same variant merges");
    match merged {
        Action::Switches(sw) => {
            assert_eq!(sw.len(), 2);
            assert_eq!(sw[0].text, "Oui".to_string());
            assert!(!sw[0].enabled);
            assert_eq!(sw[1].text, "Non".to_string());
            assert!(sw[1].enabled);
        }
        _ => panic!("expected a switches action"),
    }
}

#[test]
fn merge_prefers_primary_custom_values() {
    let mut p: VarMap = StrMap::new();
    p.push_pair("k".to_string(), RawValue::Num(1));
    let mut s: VarMap = StrMap::new();
    s.push_pair("k".to_string(), RawValue::Num(2));
    s.push_pair("extra".to_string(), RawValue::Num(3));
    let merged = merge_action(Fallback::new(
        Some(Action::Custom(p)),
        Some(Action::Custom(s)),
    ))
    .expect("same variant merges");
    match merged {
        Action::Custom(m) => {
            assert_eq!(m.get(&"k".to_string()), Some(&RawValue::Num(1)));
            assert_eq!(m.get(&"extra".to_string()), Some(&RawValue::Num(3)));
        }
        _ => panic!("expected a custom action"),
    }
}

#[test]
fn merge_of_one_side_uses_it_as_is() {
    let only = merge_action(Fallback::new(None, Some(Action::Text(text_action(&["x"])))))
        .expect("single side merges");
    match only {
        Action::Text(t) => assert_eq!(t.full_text(), "x".to_string()),
        _ => panic!("expected a text action"),
    }
    let neither: Result<Action, EngineError> = merge_action(Fallback::new(None, None));
    match neither.expect("both absent yields the default") {
        Action::Text(t) => assert_eq!(t.full_text(), String::new()),
        _ => panic!("expected the default text action"),
    }
}

#[test]
fn merge_of_mismatched_variants_is_an_error() {
    let r = merge_action(Fallback::new(
        Some(Action::Text(text_action(&["x"]))),
        Some(Action::Switches(Vec::new())),
    ));
    match r {
        Err(e) => assert_eq!(e, EngineError::MismatchedActionType),
        Ok(_) => panic!("mismatched variants must not merge"),
    }
}

#[test]
fn call_flattens_literals_variables_and_trims() {
    let cx = Context::new(empty_game(), FrontendType::Text, NoopRuntime::new());
    let t = Text {
        ch_tag: None,
        ch_alias: None,
        sub_texts: vec![SubText::Str("  p".to_string()), SubText::Str("2  ".to_string())],
    };
    assert_eq!(cx.call(&t), Ok("p2".to_string()));
}

#[test]
fn call_renders_single_characters() {
    // a character literal renders as exactly its one character
    let cx = Context::new(empty_game(), FrontendType::Text, NoopRuntime::new());
    let t = Text {
        ch_tag: None,
        ch_alias: None,
        sub_texts: vec![SubText::Ch('a'), SubText::Ch('b'), SubText::Ch('!')],
    };
    assert_eq!(cx.call(&t), Ok("ab!".to_string()));
}

#[test]
fn call_reads_variables_from_locals() {
    let mut cx = Context::new(empty_game(), FrontendType::Text, NoopRuntime::new());
    let mut locals: VarMap = StrMap::new();
    locals.push_pair("target".to_string(), RawValue::Str("p9".to_string()));
    cx.set_context(RawContext {
        cur_base_para: "p1".to_string(),
        cur_para: "p1".to_string(),
        cur_act: 0,
        locals,
    });
    let t = Text {
        ch_tag: None,
        ch_alias: None,
        sub_texts: vec![SubText::Cmd(
            "var".to_string(),
            vec![SubText::Str("target".to_string())],
        )],
    };
    assert_eq!(cx.call(&t), Ok("p9".to_string()));
    // a missing variable contributes nothing
    let missing = Text {
        ch_tag: None,
        ch_alias: None,
        sub_texts: vec![SubText::Cmd(
            "var".to_string(),
            vec![SubText::Str("absent".to_string())],
        )],
    };
    assert_eq!(cx.call(&missing), Ok(String::new()));
}

#[test]
fn unknown_commands_are_skipped_without_plugins() {
    let cx = Context::new(empty_game(), FrontendType::Text, NoopRuntime::new());
    let t = Text {
        ch_tag: None,
        ch_alias: None,
        sub_texts: vec![
            SubText::Str("a".to_string()),
            SubText::Cmd("wave".to_string(), vec![]),
            SubText::Str("b".to_string()),
        ],
    };
    assert_eq!(cx.call(&t), Ok("ab".to_string()));
}

/// A runtime standing for one whose module set carries every text-command
/// name, each of whose handlers fails.
struct FailingRuntime;

impl PluginRuntime for FailingRuntime {
    // ghost items of the trait: erased, never called at runtime (the
    // denoted text-module set is the set of all names)
    fn text_modules(&self) -> vstd::set::Set<vstd::seq::Seq<char>> {
        panic!()
    }

    fn line_modules(&self) -> vstd::set::Set<vstd::seq::Seq<char>> {
        panic!()
    }

    fn action_chain_is_identity(&self) -> bool {
        panic!()
    }

    fn dispatch_text(
        &self,
        _cmd: &String,
        _args: &Vec<String>,
        _game_props: &StrMap<String>,
        _frontend: Frontend,
    ) -> Option<Result<TextProcessResult, EngineError>> {
        Some(Err(EngineError::Plugin("text module crashed".to_string())))
    }

    fn dispatch_line(
        &self,
        _cmd: &String,
        _game_props: &StrMap<String>,
        _frontend: Frontend,
        _ctx: &RawContext,
        _props: &VarMap,
    ) -> Option<Result<LineProcessResult, EngineError>> {
        None
    }

    fn process_action(
        &self,
        _game_props: &StrMap<String>,
        _frontend: Frontend,
        _ctx: &RawContext,
        action: ayaka_engine::action::ActionText,
    ) -> Result<ayaka_engine::action::ActionText, EngineError> {
        Ok(action)
    }

    fn process_game(
        &self,
        _title: &String,
        _author: &String,
        _props: &StrMap<String>,
    ) -> Result<StrMap<String>, EngineError> {
        Ok(StrMap::new())
    }
}

#[test]
fn failing_text_dispatch_surfaces_plugin_error() {
    let cx = Context::new(empty_game(), FrontendType::Text, FailingRuntime);
    let t = Text {
        ch_tag: None,
        ch_alias: None,
        sub_texts: vec![SubText::Cmd("wave".to_string(), vec![])],
    };
    match cx.call(&t) {
        Err(EngineError::Plugin(msg)) => assert_eq!(msg, "text module crashed".to_string()),
        other => panic!("expected a plugin error, got {:?}", other),
    }
}

#[test]
fn global_record_keeps_the_highest_act() {
    let mut g = GlobalRecord::new();
    let mut ctx = RawContext::new();
    ctx.cur_para = "p1".to_string();
    ctx.cur_act = 3;
    g.update(&ctx);
    assert!(g.visited(&ctx));
    let mut earlier = RawContext::new();
    earlier.cur_para = "p1".to_string();
    earlier.cur_act = 1;
    assert!(g.visited(&earlier));
    let mut later = RawContext::new();
    later.cur_para = "p1".to_string();
    later.cur_act = 4;
    assert!(!g.visited(&later));
    g.update(&later);
    assert!(g.visited(&later));
    // an update with a lower act does not lower the ledger
    g.update(&earlier);
    assert!(g.visited(&later));
    let mut other = RawContext::new();
    other.cur_para = "p2".to_string();
    assert!(!g.visited(&other));
}
