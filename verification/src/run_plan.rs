//! Running a script: the guard against deep or circular script references,
//! the environment a script gets, and what its `run` command turns into.
use vstd::prelude::*;
use crate::expand::{expand_command, expand_spec, substitute_env_vars, substituted};
use crate::order::sorted_longest_first;
use crate::package::pair_views;
use crate::script::{
    extract_melos_run_script_name, is_exec_command, is_exec_command_spec, normalize_from,
    normalize_line_continuations, run_script_name_spec,
};
use crate::config::ScriptEntry;
use crate::text::{
    append_str, first_index_of, from_chars, join, join_strings, lemma_first_index_at, lemma_first_index_of, str_eq,
    views,
};

verus! {

/// The deepest nesting of `melos run` references that runs.
pub const MAX_SCRIPT_DEPTH: usize = 16;

/// Why a script reference does not run.
#[derive(Debug, Clone, PartialEq, Eq)]
pub enum ScriptRefusal {
    /// Scripts call each other too deep.
    TooDeep,
    /// The script is already running further up the chain; the chain is
    /// given.
    Circular { name: String, chain: Vec<String> },
    /// No script of the configuration has the name.
    NotFound { name: String },
}

/// Checks a script about to run at `depth`, with the scripts of the chain
/// above it in `visited`.
pub fn check_script_entry(visited: &Vec<String>, name: &str, depth: usize) -> (r: Result<(), ScriptRefusal>)
    ensures
        depth > MAX_SCRIPT_DEPTH ==> r == Err::<(), ScriptRefusal>(ScriptRefusal::TooDeep),
        depth <= MAX_SCRIPT_DEPTH && views(visited@).contains(name@) ==> (r matches Err(ScriptRefusal::Circular { name: n, chain: c }) && n@ == name@ && views(c@) == views(visited@)),
        depth <= MAX_SCRIPT_DEPTH && !views(visited@).contains(name@) ==> r is Ok,
{
    if depth > MAX_SCRIPT_DEPTH {
        return Err(ScriptRefusal::TooDeep);
    }
    let mut i: usize = 0;
    while i < visited.len()
        invariant
            i <= visited@.len(),
            depth <= MAX_SCRIPT_DEPTH,
            forall|k: int| 0 <= k < i ==> visited@[k]@ != name@,
        decreases visited@.len() - i,
    {
        if str_eq(visited[i].as_str(), name) {
            assert(views(visited@)[i as int] == name@);
            return Err(
                ScriptRefusal::Circular { name: name.to_owned(), chain: crate::package::copy_strings(visited) },
            );
        }
        i += 1;
    }
    assert forall|k: int| 0 <= k < views(visited@).len() implies views(visited@)[k] != name@ by {
        assert(views(visited@)[k] == visited@[k]@);
    }
    Ok(())
}

/// The message of a refusal.
pub open spec fn refusal_message_spec(r: ScriptRefusal) -> Seq<char> {
    match r {
        ScriptRefusal::TooDeep => "Script recursion depth exceeded (16 levels). Check for deeply nested 'melos run' references."@,
        ScriptRefusal::Circular { name, chain } => "Circular script reference detected: '"@ + name@ + "' -> ["@
            + join(views(chain@), " -> "@) + "] -> '"@ + name@ + "'"@,
        ScriptRefusal::NotFound { name } => "Script '"@ + name@ + "' not found in config"@,
    }
}

impl ScriptRefusal {
    /// The message of a refusal.
    pub fn message(&self) -> (r: String)
        ensures
            r@ == refusal_message_spec(*self),
    {
        match self {
            ScriptRefusal::TooDeep => {
                "Script recursion depth exceeded (16 levels). Check for deeply nested 'melos run' references.".to_owned()
            },
            ScriptRefusal::Circular { name, chain } => {
                let mut m: Vec<char> = Vec::new();
                append_str(&mut m, "Circular script reference detected: '");
                append_str(&mut m, name.as_str());
                append_str(&mut m, "' -> [");
                let c = join_strings(chain, " -> ");
                append_str(&mut m, c.as_str());
                append_str(&mut m, "] -> '");
                append_str(&mut m, name.as_str());
                append_str(&mut m, "'");
                from_chars(m.as_slice())
            },
            ScriptRefusal::NotFound { name } => {
                let mut m: Vec<char> = Vec::new();
                append_str(&mut m, "Script '");
                append_str(&mut m, name.as_str());
                append_str(&mut m, "' not found in config");
                from_chars(m.as_slice())
            },
        }
    }
}

/// The names of the scripts, in order.
pub open spec fn script_names(scripts: Seq<(String, ScriptEntry)>) -> Seq<Seq<char>> {
    scripts.map_values(|e: (String, ScriptEntry)| e.0@)
}

/// The position of the first script named `name`.
fn find_script(scripts: &Vec<(String, ScriptEntry)>, name: &str) -> (r: Option<usize>)
    ensures
        match r {
            Some(i) => first_index_of(script_names(scripts@), name@) == Some(i as int),
            None => first_index_of(script_names(scripts@), name@) is None,
        },
{
    let ghost names = script_names(scripts@);
    let mut i: usize = 0;
    while i < scripts.len()
        invariant
            i <= scripts@.len(),
            names == script_names(scripts@),
            forall|k: int| 0 <= k < i ==> names[k] != name@,
        decreases scripts@.len() - i,
    {
        if str_eq(scripts[i].0.as_str(), name) {
            proof {
                lemma_first_index_at(names, name@, i as int);
            }
            return Some(i);
        }
        i += 1;
    }
    proof {
        lemma_first_index_of(names, name@);
    }
    None
}

/// Enters the script `name` at `depth`, with the chain of running scripts
/// in `visited`: refuses it where the chain is too deep or already holds
/// it; else adds it to the chain and gives the position of the first script
/// of that name, or refuses it where there is none.
pub fn enter_script(
    scripts: &Vec<(String, ScriptEntry)>,
    visited: &mut Vec<String>,
    name: &str,
    depth: usize,
) -> (r: Result<usize, ScriptRefusal>)
    ensures
        depth > MAX_SCRIPT_DEPTH ==> r == Err::<usize, ScriptRefusal>(ScriptRefusal::TooDeep) && views(
            final(visited)@,
        ) == views(old(visited)@),
        depth <= MAX_SCRIPT_DEPTH && views(old(visited)@).contains(name@) ==> (r matches Err(
            ScriptRefusal::Circular { name: n, chain: c },
        ) && n@ == name@ && views(c@) == views(old(visited)@) && views(final(visited)@) == views(old(visited)@)),
        depth <= MAX_SCRIPT_DEPTH && !views(old(visited)@).contains(name@) ==> {
            &&& views(final(visited)@) == views(old(visited)@).push(name@)
            &&& match first_index_of(script_names(scripts@), name@) {
                Some(i) => r == Ok::<usize, ScriptRefusal>(i as usize),
                None => r matches Err(ScriptRefusal::NotFound { name: n }) && n@ == name@,
            }
        },
{
    match check_script_entry(visited, name, depth) {
        Err(e) => return Err(e),
        Ok(()) => {},
    }
    visited.push(name.to_owned());
    proof {
        assert(views(visited@) =~= views(old(visited)@).push(name@));
        lemma_first_index_of(script_names(scripts@), name@);
    }
    match find_script(scripts, name) {
        Some(i) => Ok(i),
        None => Err(ScriptRefusal::NotFound { name: name.to_owned() }),
    }
}

/// The texts of `s` other than `x`, in order.
pub open spec fn without(s: Seq<Seq<char>>, x: Seq<char>) -> Seq<Seq<char>>
    decreases s.len(),
{
    if s.len() == 0 {
        s
    } else if s.last() == x {
        without(s.drop_last(), x)
    } else {
        without(s.drop_last(), x).push(s.last())
    }
}

/// Leaves the script `name`: takes it out of the chain of running
/// scripts, so that another chain can run it again.
pub fn leave_script(visited: &mut Vec<String>, name: &str)
    ensures
        views(final(visited)@) == without(views(old(visited)@), name@),
{
    let ghost old_views = views(visited@);
    let mut kept: Vec<String> = Vec::new();
    let mut i: usize = 0;
    while i < visited.len()
        invariant
            i <= visited@.len(),
            old_views == views(visited@),
            views(kept@) == without(old_views.take(i as int), name@),
        decreases visited@.len() - i,
    {
        proof {
            assert(old_views.take(i + 1).drop_last() =~= old_views.take(i as int));
            assert(old_views.take(i + 1).last() == visited@[i as int]@);
        }
        if !str_eq(visited[i].as_str(), name) {
            kept.push(visited[i].clone());
            proof {
                assert(views(kept@) =~= without(old_views.take(i as int), name@).push(visited@[i as int]@));
            }
        }
        i += 1;
    }
    proof {
        assert(old_views.take(visited@.len() as int) =~= old_views);
    }
    *visited = kept;
}

// ---------------------------------------------------------------------------
// The environment
// ---------------------------------------------------------------------------


/// Whether `env` sets `name`.
pub open spec fn sets(env: Seq<(Seq<char>, Seq<char>)>, name: Seq<char>) -> bool {
    exists|k: int| 0 <= k < env.len() && #[trigger] env[k].0 == name
}

/// The workspace's variables not set by the script, in order.
pub open spec fn kept_vars(base: Seq<(Seq<char>, Seq<char>)>, over: Seq<(Seq<char>, Seq<char>)>) -> Seq<(Seq<char>, Seq<char>)>
    decreases base.len(),
{
    if base.len() == 0 {
        seq![]
    } else {
        kept_vars(base.drop_last(), over) + if sets(over, base.last().0) {
            seq![]
        } else {
            seq![base.last()]
        }
    }
}

/// The variables of a script: the workspace's, with the script's own
/// taking their place where both set a name.
pub open spec fn script_env_spec(base: Seq<(Seq<char>, Seq<char>)>, over: Seq<(Seq<char>, Seq<char>)>) -> Seq<(Seq<char>, Seq<char>)> {
    kept_vars(base, over) + over
}

fn sets_exec(env: &[(String, String)], name: &str) -> (r: bool)
    ensures
        r == sets(pair_views(env@), name@),
{
    let mut k: usize = 0;
    while k < env.len()
        invariant
            k <= env@.len(),
            forall|m: int| 0 <= m < k ==> env@[m].0@ != name@,
        decreases env@.len() - k,
    {
        if str_eq(env[k].0.as_str(), name) {
            assert(pair_views(env@)[k as int].0 == name@);
            return true;
        }
        k += 1;
    }
    assert forall|m: int| 0 <= m < pair_views(env@).len() implies pair_views(env@)[m].0 != name@ by {
        assert(pair_views(env@)[m].0 == env@[m].0@);
    }
    false
}

/// The variables a script runs with.
pub fn script_env(workspace_env: &Vec<(String, String)>, script_vars: &[(String, String)]) -> (r: Vec<(String, String)>)
    ensures
        pair_views(r@) == script_env_spec(pair_views(workspace_env@), pair_views(script_vars@)),
{
    let mut out: Vec<(String, String)> = Vec::new();
    let mut i: usize = 0;
    while i < workspace_env.len()
        invariant
            i <= workspace_env@.len(),
            pair_views(out@) == kept_vars(pair_views(workspace_env@).take(i as int), pair_views(script_vars@)),
        decreases workspace_env@.len() - i,
    {
        assert(pair_views(workspace_env@).take(i + 1).drop_last() =~= pair_views(workspace_env@).take(i as int));
        let ghost before = pair_views(out@);
        if !sets_exec(script_vars, workspace_env[i].0.as_str()) {
            out.push((workspace_env[i].0.clone(), workspace_env[i].1.clone()));
            assert(pair_views(out@) =~= before.push(pair_views(workspace_env@)[i as int]));
        } else {
            assert(before + seq![] =~= before);
        }
        i += 1;
    }
    assert(pair_views(workspace_env@).take(workspace_env@.len() as int) =~= pair_views(workspace_env@));
    let ghost kept = pair_views(out@);
    let mut j: usize = 0;
    while j < script_vars.len()
        invariant
            j <= script_vars@.len(),
            pair_views(out@) == kept + pair_views(script_vars@).take(j as int),
        decreases script_vars@.len() - j,
    {
        let ghost before = pair_views(out@);
        out.push((script_vars[j].0.clone(), script_vars[j].1.clone()));
        assert(pair_views(out@) =~= before.push(pair_views(script_vars@)[j as int]));
        assert(pair_views(script_vars@).take(j + 1) =~= pair_views(script_vars@).take(j as int).push(
            pair_views(script_vars@)[j as int],
        ));
        assert(pair_views(out@) =~= kept + pair_views(script_vars@).take(j + 1));
        j += 1;
    }
    assert(pair_views(script_vars@).take(script_vars@.len() as int) =~= pair_views(script_vars@));
    out
}

// ---------------------------------------------------------------------------
// The `run` command
// ---------------------------------------------------------------------------

/// One command of a script line.
#[derive(Debug, Clone, PartialEq, Eq)]
pub enum RunStep {
    /// Another script of the configuration, run in place.
    Script(String),
    /// A shell command, run at the workspace root.
    Shell(String),
}

/// What a script's `run` command turns into.
#[derive(Debug, Clone, PartialEq, Eq)]
pub enum RunPlan {
    /// A `melos exec` command, run in each selected package.
    Exec(String),
    /// Commands run one after the other.
    Commands(Vec<RunStep>),
}

pub open spec fn step_view(s: RunStep) -> (bool, Seq<char>) {
    match s {
        RunStep::Script(n) => (true, n@),
        RunStep::Shell(c) => (false, c@),
    }
}

/// What one expanded command is: a reference to a configured script, or a
/// shell command.
pub open spec fn step_of(cmd: Seq<char>, names: Seq<Seq<char>>) -> (bool, Seq<char>) {
    match run_script_name_spec(cmd) {
        Some(n) => if names.contains(n) {
            (true, n)
        } else {
            (false, cmd)
        },
        None => (false, cmd),
    }
}

/// Whether `p` is the plan of a `run` command: variables substituted (in
/// the order `order`), line continuations joined, and then either an exec
/// command or the expanded commands, each a script reference or a shell
/// command.
pub open spec fn run_plan_spec(
    command: Seq<char>,
    env: Seq<(String, String)>,
    order: Seq<usize>,
    names: Seq<Seq<char>>,
    p: RunPlan,
) -> bool {
    let s = normalize_from(substituted(command, env, order), 0);
    if is_exec_command_spec(s) {
        p matches RunPlan::Exec(c) && c@ == s
    } else {
        p matches RunPlan::Commands(steps) && steps@.map_values(|x: RunStep| step_view(x)) == expand_spec(s).map_values(
            |c: Seq<char>| step_of(c, names),
        )
    }
}

fn contains_name(names: &Vec<String>, x: &str) -> (r: bool)
    ensures
        r == views(names@).contains(x@),
{
    let mut i: usize = 0;
    while i < names.len()
        invariant
            i <= names@.len(),
            forall|k: int| 0 <= k < i ==> names@[k]@ != x@,
        decreases names@.len() - i,
    {
        if str_eq(names[i].as_str(), x) {
            assert(views(names@)[i as int] == x@);
            return true;
        }
        i += 1;
    }
    assert forall|k: int| 0 <= k < views(names@).len() implies views(names@)[k] != x@ by {
        assert(views(names@)[k] == names@[k]@);
    }
    false
}

/// The plan of a script's `run` command, given its variables and the names
/// of the configured scripts.
pub fn plan_run_command(command: &str, env: &Vec<(String, String)>, script_names: &Vec<String>) -> (r: RunPlan)
    ensures
        exists|order: Seq<usize>|
            #[trigger] sorted_longest_first(crate::expand::name_lens(env@), order) && run_plan_spec(
                command@,
                env@,
                order,
                views(script_names@),
                r,
            ),
{
    let subst = substitute_env_vars(command, env);
    let s = normalize_line_continuations(subst.as_str());
    if is_exec_command(s.as_str()) {
        return RunPlan::Exec(s);
    }
    let cmds = expand_command(s.as_str());
    let mut steps: Vec<RunStep> = Vec::new();
    let mut i: usize = 0;
    while i < cmds.len()
        invariant
            i <= cmds@.len(),
            steps@.map_values(|x: RunStep| step_view(x)) == cmds@.take(i as int).map_values(|c: String| c@).map_values(
                |c: Seq<char>| step_of(c, views(script_names@)),
            ),
        decreases cmds@.len() - i,
    {
        let ghost before = steps@.map_values(|x: RunStep| step_view(x));
        let cmd = &cmds[i];
        let step = match extract_melos_run_script_name(cmd.as_str()) {
            Some(n) => if contains_name(script_names, n) {
                RunStep::Script(n.to_owned())
            } else {
                RunStep::Shell(cmd.clone())
            },
            None => RunStep::Shell(cmd.clone()),
        };
        steps.push(step);
        assert(steps@.map_values(|x: RunStep| step_view(x)) =~= before.push(step_of(cmd@, views(script_names@))));
        assert(cmds@.take(i + 1).map_values(|c: String| c@).map_values(|c: Seq<char>| step_of(c, views(script_names@)))
            =~= cmds@.take(i as int).map_values(|c: String| c@).map_values(|c: Seq<char>| step_of(c, views(script_names@))).push(
            step_of(cmd@, views(script_names@)),
        ));
        i += 1;
    }
    assert(cmds@.take(cmds@.len() as int) =~= cmds@);
    RunPlan::Commands(steps)
}

} // verus!

verus! {

/// A script's own variable always wins: no workspace variable of the same
/// name is kept beside it, and the script's variables all come through.
pub proof fn lemma_script_vars_win(base: Seq<(Seq<char>, Seq<char>)>, over: Seq<(Seq<char>, Seq<char>)>)
    ensures
        forall|k: int|
            0 <= k < kept_vars(base, over).len() ==> !sets(over, (#[trigger] kept_vars(base, over)[k]).0),
        script_env_spec(base, over).skip(kept_vars(base, over).len() as int) == over,
    decreases base.len(),
{
    if base.len() > 0 {
        lemma_script_vars_win(base.drop_last(), over);
        let r = kept_vars(base.drop_last(), over);
        assert forall|k: int| 0 <= k < kept_vars(base, over).len() implies !sets(over, (#[trigger] kept_vars(base, over)[k]).0) by {
            if k < r.len() {
                assert(kept_vars(base, over)[k] == r[k]);
            }
        }
    }
    assert(script_env_spec(base, over).skip(kept_vars(base, over).len() as int) =~= over);
}

} // verus!
