use ayaka_engine::action::{Action, ActionLine};
use ayaka_engine::context::{Context, LoadStatus, OpenStatus};
use ayaka_engine::game::{Game, GameConfig};
use ayaka_engine::plugin::NoopRuntime;
use ayaka_engine::record::{ActionRecord, GlobalRecord, RawContext, Settings};
use ayaka_engine::script::{Line, Paragraph, SubText, Text, VarMap};
use ayaka_engine::smap::StrMap;
use ayaka_engine::types::{EngineError, FrontendType, Locale};
use ayaka_engine::value::RawValue;
use ayaka_engine::view_model::{GameViewModel, OpenGameStatus, SettingsManager};

struct MemManager {
    lang: String,
}

impl SettingsManager for MemManager {
    fn load_settings(&self) -> Result<Settings, EngineError> {
        Ok(Settings::new(Locale(self.lang.clone()), None))
    }

    fn save_settings(&self, _settings: &Settings) -> Result<(), EngineError> {
        Ok(())
    }

    fn load_global_record(&self, _title: &String) -> Result<GlobalRecord, EngineError> {
        Ok(GlobalRecord::new())
    }

    fn save_global_record(
        &self,
        _title: &String,
        _record: &GlobalRecord,
    ) -> Result<(), EngineError> {
        Ok(())
    }

    fn load_records(&self, _title: &String) -> Result<Vec<ActionRecord>, EngineError> {
        Ok(Vec::new())
    }

    fn save_records(
        &self,
        _title: &String,
        _records: &Vec<ActionRecord>,
    ) -> Result<(), EngineError> {
        Ok(())
    }
}

struct BrokenStore;

impl SettingsManager for BrokenStore {
    fn load_settings(&self) -> Result<Settings, EngineError> {
        Err(EngineError::Storage("no settings".to_string()))
    }

    fn save_settings(&self, _settings: &Settings) -> Result<(), EngineError> {
        Err(EngineError::Storage("read-only store".to_string()))
    }

    fn load_global_record(&self, _title: &String) -> Result<GlobalRecord, EngineError> {
        Err(EngineError::Storage("no record".to_string()))
    }

    fn save_global_record(
        &self,
        _title: &String,
        _record: &GlobalRecord,
    ) -> Result<(), EngineError> {
        Err(EngineError::Storage("read-only store".to_string()))
    }

    fn load_records(&self, _title: &String) -> Result<Vec<ActionRecord>, EngineError> {
        Err(EngineError::Storage("no records".to_string()))
    }

    fn save_records(
        &self,
        _title: &String,
        _records: &Vec<ActionRecord>,
    ) -> Result<(), EngineError> {
        Err(EngineError::Storage("read-only store".to_string()))
    }
}

fn text_line(s: &str) -> Line {
    Line::Text(Text {
        ch_tag: None,
        ch_alias: None,
        sub_texts: vec![SubText::Str(s.to_string())],
    })
}

fn next_expr(s: &str) -> Text {
    Text {
        ch_tag: None,
        ch_alias: None,
        sub_texts: vec![SubText::Str(s.to_string())],
    }
}

fn config(start: &str) -> GameConfig {
    GameConfig {
        title: "demo".to_string(),
        author: "tester".to_string(),
        base_lang: Locale("en".to_string()),
        paras_path: "paras".to_string(),
        res_path: None,
        start: start.to_string(),
        props: StrMap::new(),
    }
}

/// A game with one file `p1` holding `p1` (two text lines, then `p2`)
/// and `p2` (one text line).
fn two_para_game() -> Game {
    let mut game = Game::new(config("p1"));
    let p1 = Paragraph {
        tag: "p1".to_string(),
        title: Some("First".to_string()),
        texts: vec![text_line("Hello"), text_line("World")],
        next: Some(next_expr("p2")),
    };
    let p2 = Paragraph {
        tag: "p2".to_string(),
        title: None,
        texts: vec![text_line("Second")],
        next: None,
    };
    let mut table: StrMap<Vec<Paragraph>> = StrMap::new();
    table.push_pair("p1".to_string(), vec![p1, p2]);
    game.insert_para_table(Locale("en".to_string()), table);
    game
}

fn open_vm(game: Game, lang: &str) -> GameViewModel<MemManager, NoopRuntime> {
    let mut vm = GameViewModel::new(MemManager {
        lang: lang.to_string(),
    });
    let cx = Context::new(game, FrontendType::Text, NoopRuntime::new());
    let statuses = vm.open_game(cx);
    assert_eq!(
        statuses,
        vec![
            OpenGameStatus::LoadSettings,
            OpenGameStatus::LoadGlobalRecords,
            OpenGameStatus::LoadRecords,
            OpenGameStatus::Loaded,
        ]
    );
    vm
}

fn action_text_of(a: &Action) -> String {
    match a {
        Action::Text(t) => t.full_text(),
        _ => panic!("expected a text action"),
    }
}

#[test]
fn open_game_reports_milestones_in_order() {
    let vm = open_vm(two_para_game(), "en");
    assert!(vm.records().is_empty());
}

#[test]
fn open_game_defaults_on_broken_store() {
    let mut vm = GameViewModel::new(BrokenStore);
    let cx = Context::new(two_para_game(), FrontendType::Text, NoopRuntime::new());
    let statuses = vm.open_game(cx);
    assert_eq!(statuses.len(), 4);
    assert_eq!(vm.settings().lang, Locale(String::new()));
    assert!(vm.records().is_empty());
}

#[test]
fn two_lines_then_next_paragraph() {
    let mut vm = open_vm(two_para_game(), "en");
    vm.init_new();

    assert_eq!(vm.next_run(), Ok(true));
    {
        let cur = vm.current_run().expect("first unit");
        assert_eq!(cur.cur_para, "p1".to_string());
        assert_eq!(cur.cur_act, 0);
    }
    assert_eq!(vm.record().history.len(), 1);

    assert_eq!(vm.next_run(), Ok(true));
    {
        let cur = vm.current_run().expect("second unit");
        assert_eq!(cur.cur_para, "p1".to_string());
        assert_eq!(cur.cur_act, 1);
    }
    assert_eq!(vm.record().history.len(), 2);

    assert_eq!(vm.next_run(), Ok(true));
    {
        let cur = vm.current_run().expect("third unit");
        assert_eq!(cur.cur_para, "p2".to_string());
        assert_eq!(cur.cur_act, 0);
    }

    let a = vm.current_action().expect("rendered unit");
    assert_eq!(action_text_of(&a), "Second".to_string());

    assert_eq!(vm.next_run(), Ok(false));
    assert!(vm.current_run().is_none());
}

#[test]
fn missing_paragraph_climbs_one_level() {
    let mut game = Game::new(config("p1"));
    let p1 = Paragraph {
        tag: "p1".to_string(),
        title: None,
        texts: vec![text_line("One")],
        next: Some(next_expr("p2")),
    };
    let p2 = Paragraph {
        tag: "p2".to_string(),
        title: None,
        texts: vec![text_line("Two")],
        next: None,
    };
    let mut table: StrMap<Vec<Paragraph>> = StrMap::new();
    table.push_pair("p1".to_string(), vec![p1]);
    table.push_pair("p2".to_string(), vec![p2]);
    game.insert_para_table(Locale("en".to_string()), table);

    let mut vm = open_vm(game, "en");
    vm.init_new();
    assert_eq!(vm.next_run(), Ok(true));
    assert_eq!(vm.next_run(), Ok(true));
    let cur = vm.current_run().expect("promoted unit");
    assert_eq!(cur.cur_base_para, "p2".to_string());
    assert_eq!(cur.cur_para, "p2".to_string());
    assert_eq!(cur.cur_act, 0);
    assert_eq!(vm.next_run(), Ok(false));
}

#[test]
fn switch_selection_records_choice_and_clears_flags() {
    let mut game = Game::new(config("p1"));
    let p1 = Paragraph {
        tag: "p1".to_string(),
        title: None,
        texts: vec![Line::Switch(vec!["A".to_string(), "B".to_string()])],
        next: None,
    };
    let mut table: StrMap<Vec<Paragraph>> = StrMap::new();
    table.push_pair("p1".to_string(), vec![p1]);
    game.insert_para_table(Locale("en".to_string()), table);

    let mut vm = open_vm(game, "en");
    vm.init_new();
    assert_eq!(vm.next_run(), Ok(true));
    // locals empty: both options enabled by default
    assert!(vm.switch_allowed(0));
    assert!(vm.switch_allowed(1));
    let a = vm.current_action().expect("switch unit");
    match a {
        Action::Switches(sw) => {
            assert_eq!(sw.len(), 2);
            assert_eq!(sw[0].text, "A".to_string());
            assert!(sw[0].enabled);
            assert_eq!(sw[1].text, "B".to_string());
            assert!(sw[1].enabled);
        }
        _ => panic!("expected a switches action"),
    }
    // history holds only text lines
    assert_eq!(vm.record().history.len(), 0);

    vm.switch(1);
    let locals = &vm.context().ctx.locals;
    assert_eq!(locals.get(&"?".to_string()), Some(&RawValue::Num(1)));
    assert_eq!(locals.get(&"0".to_string()), None);
    assert_eq!(locals.get(&"1".to_string()), None);
}

#[test]
fn disabled_and_out_of_range_switches_reject() {
    let mut game = Game::new(config("p1"));
    let p1 = Paragraph {
        tag: "p1".to_string(),
        title: None,
        texts: vec![Line::Switch(vec!["A".to_string(), "B".to_string()])],
        next: None,
    };
    let mut table: StrMap<Vec<Paragraph>> = StrMap::new();
    table.push_pair("p1".to_string(), vec![p1]);
    game.insert_para_table(Locale("en".to_string()), table);

    let mut cx = Context::new(game, FrontendType::Text, NoopRuntime::new());
    let mut locals: VarMap = StrMap::new();
    locals.push_pair("0".to_string(), RawValue::Bool(false));
    cx.set_context(RawContext {
        cur_base_para: "p1".to_string(),
        cur_para: "p1".to_string(),
        cur_act: 0,
        locals,
    });
    let stepped = cx.next_run().expect("switch line processes");
    assert!(stepped.is_some());
    // option 0 carries an explicit false flag; option 1 stays enabled
    assert!(!cx.switch_allowed(0));
    assert!(cx.switch_allowed(1));
    // out of range always rejects
    assert!(!cx.switch_allowed(2));
    assert!(!cx.switch_allowed(usize::MAX));
}

#[test]
fn resource_falls_back_to_base_locale() {
    let mut game = Game::new(config("p1"));
    let line = Line::Text(Text {
        ch_tag: None,
        ch_alias: None,
        sub_texts: vec![SubText::Cmd(
            "res".to_string(),
            vec![SubText::Str("greet".to_string())],
        )],
    });
    let p_en = Paragraph {
        tag: "p1".to_string(),
        title: None,
        texts: vec![line],
        next: None,
    };
    let p_fr = Paragraph {
        tag: "p1".to_string(),
        title: None,
        texts: vec![Line::Text(Text {
            ch_tag: None,
            ch_alias: None,
            sub_texts: vec![SubText::Cmd(
                "res".to_string(),
                vec![SubText::Str("greet".to_string())],
            )],
        })],
        next: None,
    };
    let mut en_table: StrMap<Vec<Paragraph>> = StrMap::new();
    en_table.push_pair("p1".to_string(), vec![p_en]);
    game.insert_para_table(Locale("en".to_string()), en_table);
    let mut fr_table: StrMap<Vec<Paragraph>> = StrMap::new();
    fr_table.push_pair("p1".to_string(), vec![p_fr]);
    game.insert_para_table(Locale("fr".to_string()), fr_table);

    // the resource exists in the base locale only
    let mut en_res: StrMap<RawValue> = StrMap::new();
    en_res.push_pair("greet".to_string(), RawValue::Str("hello".to_string()));
    game.insert_res_table(Locale("en".to_string()), en_res);
    let fr_res: StrMap<RawValue> = StrMap::new();
    game.insert_res_table(Locale("fr".to_string()), fr_res);

    let mut vm = open_vm(game, "fr");
    vm.init_new();
    assert_eq!(vm.next_run(), Ok(true));
    let a = vm.current_action().expect("rendered unit");
    match &a {
        Action::Text(t) => {
            assert_eq!(t.full_text(), "hello".to_string());
            assert_eq!(t.text.len(), 1);
            assert!(matches!(t.text[0], ActionLine::Block(_)));
        }
        _ => panic!("expected a text action"),
    }
}

#[test]
fn back_then_forward_rerenders_same_action() {
    let mut vm = open_vm(two_para_game(), "en");
    vm.init_new();
    assert_eq!(vm.next_run(), Ok(true));
    assert_eq!(vm.next_run(), Ok(true));
    let before = vm.current_action().expect("unit before going back");
    let before_text = action_text_of(&before);
    let before_cursor = vm.current_run().expect("cursor").cur_act;

    assert!(vm.next_back_run());
    assert_eq!(vm.record().history.len(), 1);
    assert_eq!(vm.next_run(), Ok(true));

    let after = vm.current_action().expect("unit after returning");
    assert_eq!(action_text_of(&after), before_text);
    assert_eq!(vm.current_run().expect("cursor").cur_act, before_cursor);
    assert_eq!(vm.record().history.len(), 2);
}

#[test]
fn history_never_drops_below_one() {
    let mut vm = open_vm(two_para_game(), "en");
    vm.init_new();
    assert_eq!(vm.next_run(), Ok(true));
    assert_eq!(vm.record().history.len(), 1);
    // a length-one history refuses to go back
    assert!(!vm.next_back_run());
    assert_eq!(vm.record().history.len(), 1);
    let cur = vm.current_run().expect("still current");
    assert_eq!(cur.cur_act, 0);
}

#[test]
fn missing_line_command_fails_the_step() {
    let mut game = Game::new(config("p1"));
    let mut props: VarMap = StrMap::new();
    props.push_pair("video".to_string(), RawValue::Str("op.mp4".to_string()));
    let p1 = Paragraph {
        tag: "p1".to_string(),
        title: None,
        texts: vec![Line::Custom(props), text_line("After")],
        next: None,
    };
    let mut table: StrMap<Vec<Paragraph>> = StrMap::new();
    table.push_pair("p1".to_string(), vec![p1]);
    game.insert_para_table(Locale("en".to_string()), table);

    let mut vm = open_vm(game, "en");
    vm.init_new();
    let r = vm.next_run();
    assert_eq!(r, Err(EngineError::MissingLineCommand("video".to_string())));
    // the failed step committed nothing
    assert_eq!(vm.record().history.len(), 0);
    assert_eq!(vm.context().ctx.cur_act, 0);
}

#[test]
fn save_settings_surfaces_storage_error() {
    let mut vm = GameViewModel::new(BrokenStore);
    let cx = Context::new(two_para_game(), FrontendType::Text, NoopRuntime::new());
    vm.open_game(cx);
    assert_eq!(
        vm.save_settings(),
        Err(EngineError::Storage("read-only store".to_string()))
    );
}

#[test]
fn resume_from_record_continues_past_last_entry() {
    let mut vm = open_vm(two_para_game(), "en");
    vm.init_new();
    assert_eq!(vm.next_run(), Ok(true));
    assert_eq!(vm.next_run(), Ok(true));
    vm.save_current_to(0);
    assert_eq!(vm.records().len(), 1);

    vm.init_context_by_index(0);
    assert_eq!(vm.record().history.len(), 2);
    let cur = vm.current_run().expect("resumed current");
    assert_eq!(cur.cur_para, "p1".to_string());
    assert_eq!(cur.cur_act, 1);

    // the next step renders the paragraph that follows
    assert_eq!(vm.next_run(), Ok(true));
    let cur = vm.current_run().expect("next unit");
    assert_eq!(cur.cur_para, "p2".to_string());
    assert_eq!(cur.cur_act, 0);
}

#[test]
fn visited_ledger_tracks_current_unit() {
    let mut vm = open_vm(two_para_game(), "en");
    vm.init_new();
    assert_eq!(vm.next_run(), Ok(true));
    assert!(vm.current_visited());
    let g = vm.global_record();
    let c = vm.current_run().expect("current");
    assert!(g.visited(c));
}

#[test]
fn empty_lines_render_but_stay_out_of_history() {
    let mut game = Game::new(config("p1"));
    let p1 = Paragraph {
        tag: "p1".to_string(),
        title: None,
        texts: vec![Line::Empty, text_line("One")],
        next: None,
    };
    let mut table: StrMap<Vec<Paragraph>> = StrMap::new();
    table.push_pair("p1".to_string(), vec![p1]);
    game.insert_para_table(Locale("en".to_string()), table);

    let mut vm = open_vm(game, "en");
    vm.init_new();
    assert_eq!(vm.next_run(), Ok(true));
    assert_eq!(vm.record().history.len(), 0);
    assert_eq!(vm.next_run(), Ok(true));
    assert_eq!(vm.record().history.len(), 1);
    let cur = vm.current_run().expect("text unit");
    assert_eq!(cur.cur_act, 1);
}

#[test]
fn locales_listed_from_paragraph_tables() {
    let mut game = two_para_game();
    let fr_table: StrMap<Vec<Paragraph>> = StrMap::new();
    game.insert_para_table(Locale("fr".to_string()), fr_table);
    let vm = open_vm(game, "en");
    let locales = vm.avaliable_locale();
    assert_eq!(locales.len(), 2);
    assert!(locales.contains(&Locale("en".to_string())));
    assert!(locales.contains(&Locale("fr".to_string())));
}

#[test]
fn records_text_and_history_render_per_entry() {
    let mut vm = open_vm(two_para_game(), "en");
    vm.init_new();
    assert_eq!(vm.next_run(), Ok(true));
    assert_eq!(vm.next_run(), Ok(true));
    vm.save_current_to(0);

    let texts = vm.records_text();
    assert_eq!(texts.len(), 1);
    let last = texts[0].as_ref().expect("last unit is a text unit");
    assert_eq!(last.full_text(), "World".to_string());

    let history = vm.current_history();
    assert_eq!(history.len(), 2);
    assert_eq!(action_text_of(&history[0].0), "Hello".to_string());
    assert_eq!(action_text_of(&history[1].0), "World".to_string());
    // no secondary locale is set
    assert!(history[0].1.is_none());
}

#[test]
fn load_status_maps_to_open_status() {
    assert_eq!(
        OpenStatus::from(LoadStatus::CreateEngine),
        OpenStatus::CreateRuntime
    );
    assert_eq!(
        OpenStatus::from(LoadStatus::LoadPlugin("fx".to_string(), 1, 3)),
        OpenStatus::LoadPlugin("fx".to_string(), 1, 3)
    );
}

#[test]
fn current_title_prefers_requested_locale() {
    let mut vm = open_vm(two_para_game(), "en");
    vm.init_new();
    assert_eq!(vm.next_run(), Ok(true));
    assert_eq!(vm.current_title(), Some(&"First".to_string()));
}
