use vstd::prelude::*;
use vstd::pervasive::arbitrary;
use crate::action::{default_action_view, merge_action_views, Action, ActionText, ActionView};
use crate::context::{
    base_line_of, final_action_view, has_line, nav_walk, raw_action_view, switch_enabled_spec,
    title_spec, Context, NavOutcome, NAV_FUEL,
};
use crate::plugin::PluginRuntime;
use crate::record::{advanced, ActionRecord, GlobalRecord, RawContext, RawContextView, Settings};
use crate::script::Line;
use crate::types::{EngineError, Locale};
use crate::value::{Dup, RawValue};

verus! {

/// The settings/record persistence capability the session consumes; its
/// implementations do the actual storage I/O.
pub trait SettingsManager {
    fn load_settings(&self) -> (r: Result<Settings, EngineError>);

    fn save_settings(&self, settings: &Settings) -> (r: Result<(), EngineError>);

    fn load_global_record(&self, title: &String) -> (r: Result<GlobalRecord, EngineError>)
        ensures
            (match r {
                Ok(g) => g.wf(),
                Err(_) => true,
            }),
    ;

    fn save_global_record(&self, title: &String, record: &GlobalRecord) -> (r: Result<
        (),
        EngineError,
    >);

    fn load_records(&self, title: &String) -> (r: Result<Vec<ActionRecord>, EngineError>)
        ensures
            (match r {
                Ok(rs) => forall|i: int| 0 <= i < rs@.len() ==> (#[trigger] rs@[i]).wf(),
                Err(_) => true,
            }),
    ;

    fn save_records(&self, title: &String, records: &Vec<ActionRecord>) -> (r: Result<
        (),
        EngineError,
    >);
}

/// A milestone reported while a game opens, in order.
#[derive(Debug, Clone, Copy, PartialEq, Eq, Structural)]
pub enum OpenGameStatus {
    LoadSettings,
    LoadGlobalRecords,
    LoadRecords,
    Loaded,
}

/// The milestone order `open_game` reports.
pub open spec fn open_game_milestones() -> Seq<OpenGameStatus> {
    seq![
        OpenGameStatus::LoadSettings,
        OpenGameStatus::LoadGlobalRecords,
        OpenGameStatus::LoadRecords,
        OpenGameStatus::Loaded,
    ]
}

/// The session orchestrator: one story model and engine, one play-through
/// history, the loaded settings and records, and the persistence
/// capability.
pub struct GameViewModel<S: SettingsManager, R: PluginRuntime> {
    context: Option<Context<R>>,
    current_record: ActionRecord,
    current_raw_context: Option<RawContext>,
    settings_manager: S,
    settings: Option<Settings>,
    records: Vec<ActionRecord>,
    global_record: Option<GlobalRecord>,
}

impl<S: SettingsManager, R: PluginRuntime> GameViewModel<S, R> {
    /// The session's internal well-formedness.
    pub closed spec fn inv(&self) -> bool {
        &&& (match self.context {
            Some(c) => c.wf(),
            None => true,
        })
        &&& self.current_record.wf()
        &&& (match self.current_raw_context {
            Some(c) => c.wf(),
            None => true,
        })
        &&& (match self.global_record {
            Some(g) => g.wf(),
            None => true,
        })
        &&& forall|i: int| 0 <= i < self.records@.len() ==> (#[trigger] self.records@[i]).wf()
        &&& forall|i: int|
            0 <= i < self.current_record@.len() ==> (#[trigger] self.current_record@[i]).act + 1
                <= usize::MAX
    }

    /// Whether a game has been opened.
    pub closed spec fn is_open(&self) -> bool {
        &&& self.context is Some
        &&& self.settings is Some
        &&& self.global_record is Some
    }

    /// The engine of the opened game.
    pub closed spec fn engine(&self) -> Context<R> {
        match self.context {
            Some(c) => c,
            None => arbitrary(),
        }
    }

    /// The current play-through's history.
    pub closed spec fn history(&self) -> Seq<RawContextView> {
        self.current_record@
    }

    /// The cursor of the unit most recently produced, if any.
    pub closed spec fn current(&self) -> Option<RawContextView> {
        match self.current_raw_context {
            Some(c) => Some(c@),
            None => None,
        }
    }

    /// The active settings.
    pub closed spec fn the_settings(&self) -> Settings {
        match self.settings {
            Some(s) => s,
            None => arbitrary(),
        }
    }

    /// The loaded save slots.
    pub closed spec fn recs(&self) -> Seq<ActionRecord> {
        self.records@
    }

    /// The visited ledger.
    pub closed spec fn ledger(&self) -> Map<Seq<char>, usize> {
        match self.global_record {
            Some(g) => g@,
            None => arbitrary(),
        }
    }

    /// A session with nothing loaded yet.
    pub fn new(settings_manager: S) -> (r: Self)
        ensures
            r.inv(),
            !r.is_open(),
            r.history() == Seq::<RawContextView>::empty(),
            r.current() is None,
            r.recs() == Seq::<ActionRecord>::empty(),
    {
        let r = GameViewModel {
            settings_manager,
            context: None,
            current_record: ActionRecord::new(),
            current_raw_context: None,
            settings: None,
            records: Vec::new(),
            global_record: None,
        };
        proof {
            assert(r.recs() =~= Seq::<ActionRecord>::empty());
        }
        r
    }

    /// Opens a game: loads the settings, the story's global record and its
    /// save slots — each substituted by its default when its load fails —
    /// and installs the engine. The returned milestones are always the
    /// four load phases, in order.
    pub fn open_game(&mut self, context: Context<R>) -> (r: Vec<OpenGameStatus>)
        requires
            old(self).inv(),
            context.wf(),
        ensures
            final(self).inv(),
            final(self).is_open(),
            final(self).engine() == context,
            final(self).history() == old(self).history(),
            final(self).current() == old(self).current(),
            r@ == open_game_milestones(),
    {
        let mut statuses: Vec<OpenGameStatus> = Vec::new();
        statuses.push(OpenGameStatus::LoadSettings);
        let settings = match self.settings_manager.load_settings() {
            Ok(s) => s,
            Err(_) => Settings::default(),
        };
        self.settings = Some(settings);
        statuses.push(OpenGameStatus::LoadGlobalRecords);
        let global = match self.settings_manager.load_global_record(&context.game.config.title) {
            Ok(g) => g,
            Err(_) => GlobalRecord::new(),
        };
        self.global_record = Some(global);
        statuses.push(OpenGameStatus::LoadRecords);
        let records = match self.settings_manager.load_records(&context.game.config.title) {
            Ok(rs) => rs,
            Err(_) => Vec::new(),
        };
        self.records = records;
        self.context = Some(context);
        statuses.push(OpenGameStatus::Loaded);
        proof {
            assert(statuses@ =~= open_game_milestones());
        }
        statuses
    }

    /// The engine; to be called after `open_game`.
    pub fn context(&self) -> (r: &Context<R>)
        requires
            self.is_open(),
        ensures
            *r == self.engine(),
    {
        match &self.context {
            Some(c) => c,
            None => {
                vstd::pervasive::unreached()
            },
        }
    }

    /// The engine, mutably; to be called after `open_game`. The caller's
    /// writes through the reference become the session's engine state.
    pub fn context_mut(&mut self) -> (r: &mut Context<R>)
        requires
            old(self).is_open(),
        ensures
            *r == old(self).engine(),
            final(self).is_open(),
            final(self).engine() == *final(r),
            final(self).history() == old(self).history(),
            final(self).current() == old(self).current(),
            final(self).the_settings() == old(self).the_settings(),
            final(self).recs() == old(self).recs(),
            final(self).ledger() == old(self).ledger(),
            old(self).inv() && final(r).wf() ==> final(self).inv(),
    {
        match &mut self.context {
            Some(c) => c,
            None => {
                vstd::pervasive::unreached()
            },
        }
    }

    /// The visited ledger, mutably; to be called after `open_game`.
    pub fn global_record_mut(&mut self) -> (r: &mut GlobalRecord)
        requires
            old(self).is_open(),
        ensures
            r@ == old(self).ledger(),
            final(self).is_open(),
            final(self).ledger() == final(r)@,
            final(self).engine() == old(self).engine(),
            final(self).history() == old(self).history(),
            final(self).current() == old(self).current(),
            final(self).the_settings() == old(self).the_settings(),
            final(self).recs() == old(self).recs(),
            old(self).inv() && final(r).wf() ==> final(self).inv(),
    {
        match &mut self.global_record {
            Some(g) => g,
            None => {
                vstd::pervasive::unreached()
            },
        }
    }

    /// The current play-through's record.
    pub fn record(&self) -> (r: &ActionRecord)
        ensures
            r@ == self.history(),
            self.inv() ==> r.wf(),
    {
        &self.current_record
    }

    /// The active settings; to be called after `open_game`.
    pub fn settings(&self) -> (r: &Settings)
        requires
            self.is_open(),
        ensures
            *r == self.the_settings(),
    {
        match &self.settings {
            Some(s) => s,
            None => {
                vstd::pervasive::unreached()
            },
        }
    }

    /// Replaces the settings.
    pub fn set_settings(&mut self, settings: Settings)
        requires
            old(self).inv(),
        ensures
            final(self).inv(),
            final(self).the_settings() == settings,
            old(self).is_open() ==> final(self).is_open(),
            final(self).engine() == old(self).engine(),
            final(self).history() == old(self).history(),
            final(self).current() == old(self).current(),
            final(self).recs() == old(self).recs(),
    {
        self.settings = Some(settings);
    }

    /// The loaded save slots.
    pub fn records(&self) -> (r: &Vec<ActionRecord>)
        ensures
            r@ == self.recs(),
    {
        &self.records
    }

    /// The story's visited ledger; to be called after `open_game`.
    pub fn global_record(&self) -> (r: &GlobalRecord)
        requires
            self.is_open(),
        ensures
            r@ == self.ledger(),
            self.inv() ==> r.wf(),
    {
        match &self.global_record {
            Some(g) => g,
            None => {
                vstd::pervasive::unreached()
            },
        }
    }

    /// The locales the story offers paragraphs for.
    pub fn avaliable_locale(&self) -> (r: Vec<Locale>)
        requires
            self.is_open(),
        ensures
            r@.len() == self.engine().game.paras.pairs().len(),
            forall|i: int|
                0 <= i < r@.len() ==> (#[trigger] r@[i])@ == self.engine().game.paras.pairs()[
                    i
                ].0@,
    {
        let keys = self.context().game.paras.key_strings();
        let n = keys.len();
        let mut out: Vec<Locale> = Vec::new();
        let mut i: usize = 0;
        let ghost goal = self.engine().game.paras.pairs();
        while i < n
            invariant
                n == keys@.len(),
                0 <= i <= n,
                keys@.len() == goal.len(),
                forall|j: int| 0 <= j < keys@.len() ==> (#[trigger] keys@[j])@ == goal[j].0@,
                out@.len() == i,
                forall|j: int| 0 <= j < i ==> (#[trigger] out@[j])@ == goal[j].0@,
            decreases n - i,
        {
            out.push(Locale(keys[i].clone()));
            i += 1;
        }
        out
    }

    /// Starts a new game: empty history, no current unit, the engine at
    /// the configured start. The first unit comes from the next forward
    /// step.
    pub fn init_new(&mut self)
        requires
            old(self).inv(),
            old(self).is_open(),
        ensures
            final(self).inv(),
            final(self).is_open(),
            final(self).history() == Seq::<RawContextView>::empty(),
            final(self).current() is None,
            final(self).engine().game == old(self).engine().game,
            final(self).engine().ctx@ == (RawContextView {
                base: old(self).engine().game.config.start@,
                para: old(self).engine().game.config.start@,
                act: 0,
                locals: Map::empty(),
            }),
            final(self).the_settings() == old(self).the_settings(),
            final(self).recs() == old(self).recs(),
            final(self).ledger() == old(self).ledger(),
    {
        self.current_record = ActionRecord::new();
        self.current_raw_context = None;
        match &mut self.context {
            Some(c) => {
                c.set_start_context();
            },
            None => {
                proof {
                    assert(false);
                }
            },
        }
        proof {
            assert(self.history() =~= Seq::<RawContextView>::empty());
        }
    }

    /// Resumes a play-through from a record: the history is taken over
    /// verbatim, the current unit is its last snapshot, and the engine
    /// points one act past it.
    pub fn init_context(&mut self, record: ActionRecord)
        requires
            old(self).inv(),
            old(self).is_open(),
            record.wf(),
            forall|i: int| 0 <= i < record@.len() ==> (#[trigger] record@[i]).act + 1 <= usize::MAX,
        ensures
            final(self).inv(),
            final(self).is_open(),
            final(self).history() == record@,
            final(self).current() == (if record@.len() > 0 {
                Some(record@.last())
            } else {
                None
            }),
            final(self).engine().game == old(self).engine().game,
            final(self).engine().ctx@ == advanced(
                (if record@.len() > 0 {
                    record@.last()
                } else {
                    RawContextView {
                        base: old(self).engine().game.config.start@,
                        para: old(self).engine().game.config.start@,
                        act: 0,
                        locals: Map::empty(),
                    }
                }),
            ),
            final(self).the_settings() == old(self).the_settings(),
            final(self).recs() == old(self).recs(),
            final(self).ledger() == old(self).ledger(),
    {
        let mut ctx = match &self.context {
            Some(c) => record.last_ctx_with_game(&c.game),
            None => {
                proof {
                    assert(false);
                }
                RawContext::new()
            },
        };
        self.current_raw_context = match record.last_ctx() {
            Some(c) => Some(c.duplicate()),
            None => None,
        };
        self.current_record = record;
        ctx.cur_act = ctx.cur_act + 1;
        match &mut self.context {
            Some(c) => {
                c.set_context(ctx);
            },
            None => {
                proof {
                    assert(false);
                }
            },
        }
    }

    /// Steps forward: advances the engine one unit, appends the produced
    /// cursor to the history when its line is a text line, and notes it in
    /// the visited ledger. `Ok(false)` means the story has ended; a failed
    /// step leaves everything as it was.
    pub fn next_run(&mut self) -> (r: Result<bool, EngineError>)
        requires
            old(self).inv(),
            old(self).is_open(),
        ensures
            final(self).inv(),
            final(self).is_open(),
            final(self).engine().game == old(self).engine().game,
            final(self).engine().runtime == old(self).engine().runtime,
            final(self).engine().frontend == old(self).engine().frontend,
            final(self).the_settings() == old(self).the_settings(),
            final(self).recs() == old(self).recs(),
            (match r {
                Err(_) => {
                    &&& final(self).history() == old(self).history()
                    &&& final(self).current() == old(self).current()
                    &&& final(self).engine().ctx@ == old(self).engine().ctx@
                    &&& final(self).engine().switches == old(self).engine().switches
                    &&& final(self).engine().vars == old(self).engine().vars
                    &&& final(self).ledger() == old(self).ledger()
                },
                Ok(false) => {
                    &&& final(self).history() == old(self).history()
                    &&& final(self).current() is None
                    &&& final(self).engine().ctx@.locals == old(self).engine().ctx@.locals
                    &&& final(self).engine().switches == old(self).engine().switches
                    &&& final(self).engine().vars == old(self).engine().vars
                    &&& final(self).ledger() == old(self).ledger()
                },
                Ok(true) => {
                    &&& final(self).history().len() >= old(self).history().len()
                    &&& (match final(self).current() {
                        Some(cv) => {
                            &&& has_line(final(self).engine().game, cv)
                            &&& final(self).engine().ctx@.base == cv.base
                            &&& final(self).engine().ctx@.para == cv.para
                            &&& final(self).engine().ctx@.act == cv.act + 1
                            &&& final(self).engine().ctx@.locals == cv.locals
                            &&& (match base_line_of(final(self).engine().game, cv) {
                                Some(Line::Text(_)) => {
                                    &&& final(self).history() == old(self).history().push(cv)
                                    &&& cv.locals == old(self).engine().ctx@.locals
                                    &&& final(self).engine().switches == old(
                                        self,
                                    ).engine().switches
                                    &&& final(self).engine().vars == old(self).engine().vars
                                },
                                Some(Line::Empty) => {
                                    &&& final(self).history() == old(self).history()
                                    &&& cv.locals == old(self).engine().ctx@.locals
                                    &&& final(self).engine().switches == old(
                                        self,
                                    ).engine().switches
                                    &&& final(self).engine().vars == old(self).engine().vars
                                },
                                Some(Line::Switch(labels)) => {
                                    &&& final(self).history() == old(self).history()
                                    &&& cv.locals == old(self).engine().ctx@.locals
                                    &&& final(self).engine().vars == old(self).engine().vars
                                    &&& final(self).engine().switches@.len() == labels@.len()
                                    &&& (forall|k: int|
                                        0 <= k < labels@.len()
                                            ==> final(self).engine().switches@[k]
                                            == switch_enabled_spec(
                                            old(self).engine().ctx@.locals,
                                            k,
                                        ))
                                },
                                Some(Line::Custom(props)) => {
                                    &&& final(self).history() == old(self).history()
                                    &&& final(self).engine().switches == old(
                                        self,
                                    ).engine().switches
                                    &&& (props.pairs().len() > 0 ==> exists|
                                        m: Map<Seq<char>, RawValue>,
                                    |
                                        cv.locals == old(
                                            self,
                                        ).engine().ctx@.locals.union_prefer_right(m))
                                },
                                None => false,
                            })
                            &&& final(self).ledger() == old(self).ledger().insert(
                                cv.para,
                                (if old(self).ledger().contains_key(cv.para) && old(
                                    self,
                                ).ledger()[cv.para] as int >= cv.act {
                                    old(self).ledger()[cv.para]
                                } else {
                                    cv.act as usize
                                }),
                            )
                            &&& ((has_line(old(self).engine().game, old(self).engine().ctx@)
                                && (base_line_of(old(self).engine().game, old(self).engine().ctx@)
                                matches Some(Line::Text(_)))) ==> cv == old(self).engine().ctx@)
                        },
                        None => false,
                    })
                },
            }),
            (match nav_walk(
                old(self).engine().game,
                old(self).engine().runtime.text_modules(),
                old(self).engine().ctx@,
                NAV_FUEL as nat,
            ) {
                NavOutcome::Found(c) => {
                    &&& !(r matches Ok(false))
                    &&& (match base_line_of(old(self).engine().game, c) {
                        Some(Line::Custom(props)) => {
                            &&& (props.pairs().len() == 0 ==> r matches Ok(true))
                            &&& (props.pairs().len() > 0 && !old(
                                self,
                            ).engine().runtime.line_modules().contains(props.pairs()[0].0@)
                                ==> (match r {
                                Err(EngineError::MissingLineCommand(name)) => name@
                                    == props.pairs()[0].0@,
                                _ => false,
                            }))
                        },
                        Some(_) => r matches Ok(true),
                        None => false,
                    })
                    &&& (r matches Ok(true) ==> (match final(self).current() {
                        Some(cv) => cv.base == c.base && cv.para == c.para && cv.act == c.act,
                        None => false,
                    }))
                },
                NavOutcome::End => r == Ok::<bool, EngineError>(false)
                    && final(self).engine().ctx@.base == final(self).engine().ctx@.para
                    && crate::game::find_para_spec(
                    final(self).engine().game,
                    final(self).engine().game.config.base_lang@,
                    final(self).engine().ctx@.base,
                    final(self).engine().ctx@.para,
                ) is None,
                NavOutcome::Unknown => true,
            }),
    {
        let res = match &mut self.context {
            Some(c) => c.next_run(),
            None => {
                vstd::pervasive::unreached()
            },
        };
        match res {
            Err(e) => Err(e),
            Ok(None) => {
                self.current_raw_context = None;
                Ok(false)
            },
            Ok(Some(ctx)) => {
                let ghost oldhist = self.current_record@;
                let is_text = self.context().line_is_text(&ctx);
                if is_text {
                    self.current_record.history.push(ctx.duplicate());
                    proof {
                        assert(self.current_record@ =~= oldhist.push(ctx@));
                    }
                }
                match &mut self.global_record {
                    Some(g) => {
                        g.update(&ctx);
                    },
                    None => {
                        proof {
                            assert(false);
                        }
                    },
                }
                self.current_raw_context = Some(ctx);
                Ok(true)
            },
        }
    }

    /// Steps back: pops the current history entry, makes the one before
    /// it current, and points the engine one act past it. On a history of
    /// length one or less this is a failing no-op: the history never
    /// drops below one entry once it has one.
    pub fn next_back_run(&mut self) -> (r: bool)
        requires
            old(self).inv(),
            old(self).is_open(),
        ensures
            final(self).inv(),
            final(self).is_open(),
            final(self).engine().game == old(self).engine().game,
            final(self).engine().runtime == old(self).engine().runtime,
            final(self).engine().frontend == old(self).engine().frontend,
            final(self).engine().switches == old(self).engine().switches,
            final(self).engine().vars == old(self).engine().vars,
            final(self).the_settings() == old(self).the_settings(),
            final(self).recs() == old(self).recs(),
            final(self).ledger() == old(self).ledger(),
            old(self).history().len() <= 1 ==> {
                &&& r == false
                &&& final(self).history() == old(self).history()
                &&& final(self).current() == old(self).current()
                &&& final(self).engine().ctx@ == old(self).engine().ctx@
            },
            old(self).history().len() > 1 ==> {
                &&& r == true
                &&& final(self).history() == old(self).history().drop_last()
                &&& final(self).history().len() >= 1
                &&& final(self).current() == Some(
                    old(self).history()[old(self).history().len() - 2],
                )
                &&& final(self).engine().ctx@ == advanced(
                    old(self).history()[old(self).history().len() - 2],
                )
            },
    {
        if self.current_record.history.len() <= 1 {
            false
        } else {
            let ghost oldhist = self.current_record@;
            let _ = self.current_record.history.pop();
            proof {
                assert(self.current_record@ =~= oldhist.drop_last());
            }
            let n = self.current_record.history.len();
            let cur = self.current_record.history[n - 1].duplicate();
            let mut ctx = self.current_record.history[n - 1].duplicate();
            self.current_raw_context = Some(cur);
            proof {
                assert(ctx@ == oldhist[oldhist.len() - 2]);
                assert(oldhist[oldhist.len() - 2].act + 1 <= usize::MAX);
            }
            ctx.cur_act = ctx.cur_act + 1;
            match &mut self.context {
                Some(c) => {
                    c.set_context(ctx);
                },
                None => {
                    proof {
                        assert(false);
                    }
                },
            }
            true
        }
    }

    /// The cursor of the most recently produced unit, if any.
    pub fn current_run(&self) -> (r: Option<&RawContext>)
        ensures
            (match r {
                Some(c) => self.current() == Some(c@),
                None => self.current() is None,
            }),
    {
        match &self.current_raw_context {
            Some(c) => Some(c),
            None => None,
        }
    }

    /// The current paragraph's title in the active locale, with fallback
    /// to the base locale.
    pub fn current_title(&self) -> (r: Option<&String>)
        requires
            self.inv(),
            self.is_open(),
        ensures
            crate::context::opt_str_view_ref(r) == title_spec(
                self.engine().game,
                self.the_settings().lang@,
                self.engine().ctx@,
            ),
    {
        self.context().current_paragraph_title(&self.settings().lang)
    }

    /// Renders the current unit in the active locale; a failed rendering
    /// falls back to the empty default action.
    pub fn current_action(&self) -> (r: Option<Action>)
        requires
            self.inv(),
            self.is_open(),
        ensures
            (match self.current() {
                None => r is None,
                Some(cv) => (match r {
                    Some(a) => a.wf() && (self.engine().pure_at(self.the_settings().lang@, cv)
                        ==> a@ == self.engine().rendered(self.the_settings().lang@, cv)),
                    None => false,
                }),
            }),
    {
        match &self.current_raw_context {
            Some(raw) => {
                let a = match self.context().get_action(&self.settings().lang, raw) {
                    Ok(a) => a,
                    Err(_) => Action::default(),
                };
                Some(a)
            },
            None => None,
        }
    }

    /// Renders the current unit in the active locale and, when a
    /// secondary locale is set, in that locale too.
    pub fn current_actions(&self) -> (r: Option<(Action, Option<Action>)>)
        requires
            self.inv(),
            self.is_open(),
        ensures
            (r is Some) == (self.current() is Some),
            (match (r, self.current()) {
                (Some(pair), Some(cv)) => {
                    &&& pair.0.wf()
                    &&& ((pair.1 is Some) == (self.the_settings().sub_lang is Some))
                    &&& (self.engine().pure_at(self.the_settings().lang@, cv) ==> pair.0@
                        == self.engine().rendered(self.the_settings().lang@, cv))
                    &&& (match (self.the_settings().sub_lang, pair.1) {
                        (Some(sub), Some(b)) => self.engine().pure_at(sub@, cv) ==> b@
                            == self.engine().rendered(sub@, cv),
                        _ => true,
                    })
                },
                (None, None) => true,
                _ => false,
            }),
    {
        match &self.current_raw_context {
            Some(raw) => Some(self.get_actions(raw)),
            None => None,
        }
    }

    /// Renders one cursor in the active and the secondary locale.
    fn get_actions(&self, raw: &RawContext) -> (r: (Action, Option<Action>))
        requires
            self.inv(),
            self.is_open(),
            raw.wf(),
        ensures
            r.0.wf(),
            (r.1 is Some) == (self.the_settings().sub_lang is Some),
            (match r.1 {
                Some(a) => a.wf(),
                None => true,
            }),
            self.engine().pure_at(self.the_settings().lang@, raw@) ==> r.0@
                == self.engine().rendered(self.the_settings().lang@, raw@),
            (match (self.the_settings().sub_lang, r.1) {
                (Some(sub), Some(b)) => self.engine().pure_at(sub@, raw@) ==> b@
                    == self.engine().rendered(sub@, raw@),
                _ => true,
            }),
    {
        let action = match self.context().get_action(&self.settings().lang, raw) {
            Ok(a) => a,
            Err(_) => Action::default(),
        };
        let base_action = match &self.settings().sub_lang {
            Some(sub) => Some(
                (match self.context().get_action(sub, raw) {
                    Ok(a) => a,
                    Err(_) => Action::default(),
                }),
            ),
            None => None,
        };
        (action, base_action)
    }

    /// Selects switch option `i` of the pending switch line; the choice
    /// lands in the reserved `?` local and the per-option flags clear.
    pub fn switch(&mut self, i: usize)
        requires
            old(self).inv(),
            old(self).is_open(),
            i < old(self).engine().switches@.len(),
            old(self).engine().switches@[i as int],
            i as int <= 0x7fff_ffff_ffff_ffff,
        ensures
            final(self).inv(),
            final(self).is_open(),
            final(self).engine().game == old(self).engine().game,
            final(self).engine().switches == old(self).engine().switches,
            final(self).engine().ctx@.base == old(self).engine().ctx@.base,
            final(self).engine().ctx@.para == old(self).engine().ctx@.para,
            final(self).engine().ctx@.act == old(self).engine().ctx@.act,
            final(self).engine().ctx@.locals == crate::context::clear_switch_keys(
                old(self).engine().ctx@.locals.insert(
                    seq!['?'],
                    crate::value::RawValue::Num(i as i64),
                ),
                old(self).engine().switches@.len() as int,
            ),
            final(self).history() == old(self).history(),
            final(self).current() == old(self).current(),
            final(self).the_settings() == old(self).the_settings(),
            final(self).recs() == old(self).recs(),
            final(self).ledger() == old(self).ledger(),
    {
        match &mut self.context {
            Some(c) => {
                c.switch(i);
            },
            None => {
                proof {
                    assert(false);
                }
            },
        }
    }

    /// Whether selecting option `i` is currently allowed.
    pub fn switch_allowed(&self, i: usize) -> (r: bool)
        requires
            self.is_open(),
        ensures
            r == (i < self.engine().switches@.len() && self.engine().switches@[i as int]),
    {
        self.context().switch_allowed(i)
    }

    /// Saves the current play-through into the slot at an index: an index
    /// past the end appends a new slot.
    pub fn save_current_to(&mut self, index: usize)
        requires
            old(self).inv(),
        ensures
            final(self).inv(),
            final(self).is_open() == old(self).is_open(),
            final(self).engine() == old(self).engine(),
            final(self).history() == old(self).history(),
            final(self).current() == old(self).current(),
            final(self).the_settings() == old(self).the_settings(),
            final(self).ledger() == old(self).ledger(),
            index < old(self).recs().len() ==> {
                &&& final(self).recs().len() == old(self).recs().len()
                &&& (forall|j: int|
                    0 <= j < old(self).recs().len() && j != index ==> final(self).recs()[j]
                        == old(self).recs()[j])
                &&& final(self).recs()[index as int]@ == old(self).history()
            },
            index >= old(self).recs().len() ==> {
                &&& final(self).recs().len() == old(self).recs().len() + 1
                &&& (forall|j: int|
                    0 <= j < old(self).recs().len() ==> final(self).recs()[j] == old(
                        self,
                    ).recs()[j])
                &&& final(self).recs().last()@ == old(self).history()
            },
    {
        let record = self.current_record.duplicate();
        if index >= self.records.len() {
            self.records.push(record);
        } else {
            let _ = self.records.remove(index);
            self.records.insert(index, record);
            proof {
                assert(forall|j: int|
                    0 <= j < self.records@.len() && j != index ==> self.records@[j] == old(
                        self,
                    ).records@[j]);
            }
        }
    }

    /// Persists the settings, the visited ledger and the save slots; the
    /// first failing store aborts the rest.
    pub fn save_settings(&self) -> (r: Result<(), EngineError>)
        requires
            self.inv(),
            self.is_open(),
    {
        let title = &self.context().game.config.title;
        match self.settings_manager.save_settings(self.settings()) {
            Ok(_) => {},
            Err(e) => {
                return Err(e);
            },
        }
        match self.settings_manager.save_global_record(title, self.global_record()) {
            Ok(_) => {},
            Err(e) => {
                return Err(e);
            },
        }
        match self.settings_manager.save_records(title, &self.records) {
            Ok(_) => {},
            Err(e) => {
                return Err(e);
            },
        }
        Ok(())
    }

    /// Whether the current unit has been rendered before, in any session.
    pub fn current_visited(&self) -> (r: bool)
        requires
            self.inv(),
            self.is_open(),
        ensures
            r == (match self.current() {
                Some(cv) => self.ledger().contains_key(cv.para) && self.ledger()[cv.para] as int
                    >= cv.act,
                None => false,
            }),
    {
        match &self.current_raw_context {
            Some(c) => self.global_record().visited(c),
            None => false,
        }
    }

    /// The rendered text of each save slot's last unit, in the active
    /// locale. A slot whose last unit does not stand on a text line of the
    /// base locale is a caller error and excluded up front; a slot whose
    /// rendering still comes out as another variant yields `None`.
    pub fn records_text(&self) -> (r: Vec<Option<ActionText>>)
        requires
            self.inv(),
            self.is_open(),
            forall|i: int| 0 <= i < self.recs().len() ==> (#[trigger] self.recs()[i])@.len() > 0,
            forall|i: int|
                0 <= i < self.recs().len() ==> (base_line_of(
                    self.engine().game,
                    (#[trigger] self.recs()[i])@.last(),
                ) matches Some(Line::Text(_))),
        ensures
            r@.len() == self.recs().len(),
            forall|i: int|
                0 <= i < r@.len() ==> (match #[trigger] r@[i] {
                    Some(t) => t.wf(),
                    None => true,
                }),
            forall|i: int|
                0 <= i < r@.len() && self.engine().pure_at(
                    self.the_settings().lang@,
                    self.recs()[i]@.last(),
                ) ==> (match self.engine().rendered(
                    self.the_settings().lang@,
                    self.recs()[i]@.last(),
                ) {
                    ActionView::Text(tv) => (match #[trigger] r@[i] {
                        Some(t) => t@ == tv,
                        None => false,
                    }),
                    _ => r@[i] is None,
                }),
    {
        let n = self.records.len();
        let mut out: Vec<Option<ActionText>> = Vec::new();
        let mut i: usize = 0;
        while i < n
            invariant
                self.inv(),
                self.is_open(),
                n == self.recs().len(),
                0 <= i <= n,
                forall|j: int|
                    0 <= j < self.recs().len() ==> (#[trigger] self.recs()[j])@.len() > 0,
                out@.len() == i,
                forall|j: int|
                    0 <= j < i ==> (match #[trigger] out@[j] {
                        Some(t) => t.wf(),
                        None => true,
                    }),
                forall|j: int|
                    0 <= j < i && self.engine().pure_at(
                        self.the_settings().lang@,
                        self.recs()[j]@.last(),
                    ) ==> (match self.engine().rendered(
                        self.the_settings().lang@,
                        self.recs()[j]@.last(),
                    ) {
                        ActionView::Text(tv) => (match #[trigger] out@[j] {
                            Some(t) => t@ == tv,
                            None => false,
                        }),
                        _ => out@[j] is None,
                    }),
            decreases n - i,
        {
            let rec = &self.records[i];
            let entry: Option<ActionText> = match rec.last_ctx() {
                Some(raw) => {
                    let a = match self.context().get_action(&self.settings().lang, raw) {
                        Ok(a) => a,
                        Err(_) => Action::default(),
                    };
                    match a {
                        Action::Text(t) => Some(t),
                        _ => None,
                    }
                },
                None => {
                    proof {
                        assert(false);
                    }
                    None
                },
            };
            out.push(entry);
            i += 1;
        }
        out
    }

    /// Renders every history entry in the active locale and, when a
    /// secondary locale is set, in that locale too, in history order.
    pub fn current_history(&self) -> (r: Vec<(Action, Option<Action>)>)
        requires
            self.inv(),
            self.is_open(),
        ensures
            r@.len() == self.history().len(),
            forall|i: int| 0 <= i < r@.len() ==> (#[trigger] r@[i]).0.wf(),
            forall|i: int|
                0 <= i < r@.len() && self.engine().pure_at(
                    self.the_settings().lang@,
                    self.history()[i],
                ) ==> (#[trigger] r@[i]).0@ == self.engine().rendered(
                    self.the_settings().lang@,
                    self.history()[i],
                ),
    {
        let n = self.current_record.history.len();
        let mut out: Vec<(Action, Option<Action>)> = Vec::new();
        let mut i: usize = 0;
        while i < n
            invariant
                self.inv(),
                self.is_open(),
                n == self.current_record.history@.len(),
                n == self.history().len(),
                0 <= i <= n,
                out@.len() == i,
                forall|j: int| 0 <= j < i ==> (#[trigger] out@[j]).0.wf(),
                forall|j: int|
                    0 <= j < i && self.engine().pure_at(
                        self.the_settings().lang@,
                        self.history()[j],
                    ) ==> (#[trigger] out@[j]).0@ == self.engine().rendered(
                        self.the_settings().lang@,
                        self.history()[j],
                    ),
            decreases n - i,
        {
            let raw = &self.current_record.history[i];
            let pair = self.get_actions(raw);
            out.push(pair);
            i += 1;
        }
        out
    }

    /// Resumes from the save slot at an index.
    pub fn init_context_by_index(&mut self, index: usize)
        requires
            old(self).inv(),
            old(self).is_open(),
            index < old(self).recs().len(),
            forall|i: int|
                0 <= i < old(self).recs()[index as int]@.len() ==> (#[trigger] old(self).recs()[
                    index as int
                ]@[i]).act + 1 <= usize::MAX,
        ensures
            final(self).inv(),
            final(self).is_open(),
            final(self).history() == old(self).recs()[index as int]@,
            final(self).the_settings() == old(self).the_settings(),
            final(self).recs() == old(self).recs(),
            final(self).ledger() == old(self).ledger(),
    {
        let record = self.records[index].duplicate();
        self.init_context(record);
    }
}

} // verus!
