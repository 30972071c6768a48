use vstd::prelude::*;
use crate::action::ActionText;
use crate::game::GameConfig;
use crate::record::RawContext;
use crate::script::VarMap;
use crate::smap::StrMap;
use crate::types::{EngineError, FrontendType};

verus! {

/// What a text-command handler returns: fragments and variables to merge
/// into the unit under interpretation.
pub struct TextProcessResult {
    pub text: ActionText,
}

/// What a line-command handler returns: locals to merge into the cursor
/// and the variables the custom line renders to.
pub struct LineProcessResult {
    pub locals: VarMap,
    pub vars: VarMap,
}

/// What the game-preprocess hook returns: a patch for the game properties.
pub struct GameProcessResult {
    pub props: StrMap<String>,
}

/// The plugin dispatch capability the engine consumes. The engine never
/// assumes more of a handler's output than the contracts below state; a
/// runtime additionally names, through the spec functions, which commands
/// it can dispatch and whether its postprocess chain rewrites anything.
pub trait PluginRuntime {
    /// The text-command names this runtime can dispatch.
    spec fn text_modules(&self) -> Set<Seq<char>>;

    /// The line-command names this runtime can dispatch.
    spec fn line_modules(&self) -> Set<Seq<char>>;

    /// Whether the action-postprocess chain is the identity (no action
    /// plugin installed).
    spec fn action_chain_is_identity(&self) -> bool;

    /// Dispatches a text command; `None` when no handler has the name,
    /// which the interpreter tolerates.
    fn dispatch_text(
        &self,
        cmd: &String,
        args: &Vec<String>,
        game_props: &StrMap<String>,
        frontend: FrontendType,
    ) -> (r: Option<Result<TextProcessResult, EngineError>>)
        requires
            game_props.wf(),
        ensures
            !self.text_modules().contains(cmd@) ==> r is None,
            (match r {
                Some(Ok(t)) => t.text.wf(),
                _ => true,
            }),
    ;

    /// Dispatches a line command; `None` exactly when no handler has the
    /// name, which is a hard error for the step.
    fn dispatch_line(
        &self,
        cmd: &String,
        game_props: &StrMap<String>,
        frontend: FrontendType,
        ctx: &RawContext,
        props: &VarMap,
    ) -> (r: Option<Result<LineProcessResult, EngineError>>)
        requires
            game_props.wf(),
            ctx.wf(),
            props.wf(),
        ensures
            (r is Some) == self.line_modules().contains(cmd@),
            (match r {
                Some(Ok(l)) => l.locals.wf() && l.vars.wf(),
                _ => true,
            }),
    ;

    /// Runs the whole action-postprocess chain, in registration order.
    fn process_action(
        &self,
        game_props: &StrMap<String>,
        frontend: FrontendType,
        ctx: &RawContext,
        action: ActionText,
    ) -> (r: Result<ActionText, EngineError>)
        requires
            game_props.wf(),
            ctx.wf(),
            action.wf(),
        ensures
            (match r {
                Ok(a) => a.wf() && (self.action_chain_is_identity() ==> a@ == action@),
                Err(_) => !self.action_chain_is_identity(),
            }),
    ;

    /// Runs the game-preprocess hooks once at load time; the returned
    /// patch overrides the configured properties.
    fn process_game(&self, title: &String, author: &String, props: &StrMap<String>) -> (r: Result<
        StrMap<String>,
        EngineError,
    >)
        requires
            props.wf(),
        ensures
            (match r {
                Ok(p) => p.wf(),
                Err(_) => true,
            }),
    ;
}

/// The runtime with no plugins installed: it dispatches nothing, and its
/// postprocess chain is the identity.
pub struct NoopRuntime {}

impl NoopRuntime {
    pub fn new() -> (r: Self) {
        NoopRuntime {  }
    }
}

impl PluginRuntime for NoopRuntime {
    open spec fn text_modules(&self) -> Set<Seq<char>> {
        Set::empty()
    }

    open spec fn line_modules(&self) -> Set<Seq<char>> {
        Set::empty()
    }

    open spec fn action_chain_is_identity(&self) -> bool {
        true
    }

    fn dispatch_text(
        &self,
        cmd: &String,
        args: &Vec<String>,
        game_props: &StrMap<String>,
        frontend: FrontendType,
    ) -> (r: Option<Result<TextProcessResult, EngineError>>) {
        None
    }

    fn dispatch_line(
        &self,
        cmd: &String,
        game_props: &StrMap<String>,
        frontend: FrontendType,
        ctx: &RawContext,
        props: &VarMap,
    ) -> (r: Option<Result<LineProcessResult, EngineError>>) {
        None
    }

    fn process_action(
        &self,
        game_props: &StrMap<String>,
        frontend: FrontendType,
        ctx: &RawContext,
        action: ActionText,
    ) -> (r: Result<ActionText, EngineError>) {
        Ok(action)
    }

    fn process_game(&self, title: &String, author: &String, props: &StrMap<String>) -> (r: Result<
        StrMap<String>,
        EngineError,
    >) {
        Ok(StrMap::new())
    }
}

/// Runs the game-preprocess hooks once at load time and folds the
/// returned patch into the configured properties; a failed hook aborts
/// the load with the configuration untouched.
pub fn preprocess_game<R: PluginRuntime>(config: &mut GameConfig, runtime: &R) -> (r: Result<
    (),
    EngineError,
>)
    requires
        old(config).wf(),
    ensures
        final(config).wf(),
        final(config).title == old(config).title,
        final(config).author == old(config).author,
        final(config).base_lang == old(config).base_lang,
        final(config).paras_path == old(config).paras_path,
        final(config).res_path == old(config).res_path,
        final(config).start == old(config).start,
        r is Ok ==> exists|patch: Map<Seq<char>, String>|
            final(config).props@ == old(config).props@.union_prefer_right(patch),
        r is Err ==> final(config).props == old(config).props,
{
    match runtime.process_game(&config.title, &config.author, &config.props) {
        Ok(patch) => {
            let ghost pview = patch@;
            config.props.extend_from(patch);
            proof {
                assert(config.props@ == old(config).props@.union_prefer_right(pview));
            }
            Ok(())
        },
        Err(e) => Err(e),
    }
}

} // verus!
