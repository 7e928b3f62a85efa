//! Command dispatch: builtins with canonical names and aliases, validated
//! external executables, and the manager that resolves a typed token to one
//! of them.
//!
//! Whether an executable file of a given name exists on disk is a
//! filesystem question answered by the surrounding program; the manager
//! takes that answer as an input and owns the precedence decision.

use vstd::assert_by_contradiction;
use vstd::prelude::*;
use vstd::string::*;

use crate::environment::Environment;
use crate::path::{Path, PathView};

verus! {

/// The status a dispatched command finished with; zero is success.
#[derive(Debug, Clone, Copy, PartialEq, Eq, Structural)]
pub struct StatusCode {
    pub code: i32,
}

impl StatusCode {
    pub fn new(code: i32) -> (r: StatusCode)
        ensures
            r.code == code,
    {
        StatusCode { code }
    }

    pub fn success() -> (r: StatusCode)
        ensures
            r.code == 0,
    {
        StatusCode { code: 0 }
    }

    pub fn is_success(self) -> (r: bool)
        ensures
            r == (self.code == 0),
    {
        self.code == 0
    }
}

/// The alias strings a builtin answers to, besides its canonical name.
pub struct Aliases {
    aliases: Vec<String>,
}

impl View for Aliases {
    type V = Seq<Seq<char>>;

    closed spec fn view(&self) -> Seq<Seq<char>> {
        self.aliases.deep_view()
    }
}

impl Aliases {
    pub fn from_vec(aliases: Vec<String>) -> (r: Aliases)
        ensures
            r@ == aliases.deep_view(),
    {
        Aliases { aliases }
    }

    pub fn len(&self) -> (r: usize)
        ensures
            r == self@.len(),
    {
        self.aliases.len()
    }

    pub fn get(&self, i: usize) -> (r: &String)
        requires
            i < self@.len(),
        ensures
            r@ == self@[i as int],
    {
        &self.aliases[i]
    }

    /// Whether `alias` is one of the alias strings.
    pub fn contains(&self, alias: &str) -> (r: bool)
        ensures
            r == self@.contains(alias@),
    {
        let needle = alias.to_owned();
        let mut i: usize = 0;
        while i < self.aliases.len()
            invariant
                i <= self.aliases@.len(),
                needle@ == alias@,
                forall|k: int| 0 <= k < i ==> self.aliases@[k]@ != alias@,
            decreases self.aliases@.len() - i,
        {
            if self.aliases[i].eq(&needle) {
                proof {
                    assert(self@[i as int] == alias@);
                }
                return true;
            }
            i += 1;
        }
        proof {
            assert(forall|k: int| 0 <= k < self@.len() ==> self@[k] != alias@);
        }
        false
    }
}

/// Which internal routine a builtin stands for. The routine bodies print,
/// exit, list files and the like: they are I/O and live in the surrounding
/// program, which selects the body by this tag.
#[derive(Debug, Clone, Copy, PartialEq, Eq, Structural)]
pub enum BuiltinKind {
    Test,
    Exit,
    WorkingDirectory,
    ChangeDirectory,
    ListFilesAndDirectories,
    ClearTerminal,
    Truncate,
    Untruncate,
}

/// An internal command: its canonical name, its aliases, and the tag of
/// the routine it stands for. Immutable after registration.
pub struct Builtin {
    pub true_name: String,
    pub aliases: Aliases,
    pub kind: BuiltinKind,
}

impl Builtin {
    pub fn new(true_name: &str, aliases: Vec<String>, kind: BuiltinKind) -> (r: Builtin)
        ensures
            r.true_name@ == true_name@,
            r.aliases@ == aliases.deep_view(),
            r.kind == kind,
    {
        Builtin { true_name: true_name.to_owned(), aliases: Aliases::from_vec(aliases), kind }
    }

    /// `token` names this builtin: it equals the canonical name or one of
    /// the aliases.
    pub open spec fn names(&self, token: Seq<char>) -> bool {
        self.true_name@ == token || self.aliases@.contains(token)
    }

    /// Whether `token` names this builtin.
    pub fn matches(&self, token: &str) -> (r: bool)
        ensures
            r == self.names(token@),
    {
        let t = token.to_owned();
        self.true_name.eq(&t) || self.aliases.contains(token)
    }
}

/// Two builtins share a name: some token names them both.
pub open spec fn share_a_name(a: Builtin, b: Builtin) -> bool {
    exists|t: Seq<char>| a.names(t) && b.names(t)
}

/// Whether some token names both builtins, that is, whether registering
/// both would make a lookup ambiguous.
pub fn builtins_collide(a: &Builtin, b: &Builtin) -> (r: bool)
    ensures
        r == share_a_name(*a, *b),
{
    if a.matches(b.true_name.as_str()) {
        proof {
            assert(a.names(b.true_name@) && b.names(b.true_name@));
        }
        return true;
    }
    let mut i: usize = 0;
    while i < b.aliases.len()
        invariant
            i <= b.aliases@.len(),
            forall|k: int| 0 <= k < i ==> !a.names(b.aliases@[k]),
        decreases b.aliases@.len() - i,
    {
        if a.matches(b.aliases.get(i).as_str()) {
            proof {
                assert(a.names(b.aliases@[i as int]) && b.names(b.aliases@[i as int]));
            }
            return true;
        }
        i += 1;
    }
    proof {
        assert_by_contradiction!(!share_a_name(*a, *b), {
            let t = choose|t: Seq<char>| a.names(t) && b.names(t);
            if b.true_name@ != t {
                let k = choose|k: int| 0 <= k < b.aliases@.len() && b.aliases@[k] == t;
                assert(!a.names(b.aliases@[k]));
            }
        });
    }
    false
}

/// A validated reference to an external program, resolved via an explicit
/// path or the search path. Immutable after construction.
pub struct Executable {
    path: Path,
}

impl View for Executable {
    type V = PathView;

    closed spec fn view(&self) -> PathView {
        self.path@
    }
}

impl Executable {
    /// Wraps an already-validated Path; the Path type only holds locations
    /// that resolved against the filesystem when constructed.
    pub fn new(path: Path) -> (r: Executable)
        ensures
            r@ == path@,
    {
        Executable { path }
    }

    /// The validated location of the program.
    pub fn path(&self) -> (r: &Path)
        ensures
            r@ == self@,
    {
        &self.path
    }
}

/// The dispatch decision: the closed set of things a command token can
/// resolve to. A builtin is named by its index in the manager's
/// registration order; an external command carries its validated
/// executable.
pub enum Runnable {
    Builtin(usize),
    External(Executable),
}

/// Maps a typed command token to a Runnable: it holds the registered
/// builtins and decides between them, externally resolved executables, and
/// "command not found".
pub struct CommandManager {
    builtins: Vec<Builtin>,
}

impl CommandManager {
    /// The registered builtins, in registration order.
    pub closed spec fn builtins_seq(&self) -> Seq<Builtin> {
        self.builtins@
    }

    /// Some registered builtin is named by `token`.
    pub open spec fn has_builtin(&self, token: Seq<char>) -> bool {
        exists|i: int|
            0 <= i < self.builtins_seq().len() && self.builtins_seq()[i].names(token)
    }

    /// A manager with no builtins registered yet.
    pub fn new() -> (r: CommandManager)
        ensures
            r.builtins_seq() == Seq::<Builtin>::empty(),
    {
        CommandManager { builtins: Vec::new() }
    }

    /// The registered builtin at `i`, for the surrounding program to run
    /// once dispatch has picked it.
    pub fn builtin_at(&self, i: usize) -> (r: &Builtin)
        requires
            i < self.builtins_seq().len(),
        ensures
            *r == self.builtins_seq()[i as int],
    {
        &self.builtins[i]
    }

    pub fn builtin_count(&self) -> (r: usize)
        ensures
            r == self.builtins_seq().len(),
    {
        self.builtins.len()
    }

    /// Registers a builtin. A builtin sharing a name or alias with one
    /// already registered is rejected — a lookup for the shared token would
    /// be ambiguous — and the manager is unchanged.
    pub fn register(&mut self, builtin: Builtin) -> (ok: bool)
        ensures
            ok == !(exists|i: int|
                0 <= i < old(self).builtins_seq().len() && share_a_name(
                    old(self).builtins_seq()[i],
                    builtin,
                )),
            ok ==> final(self).builtins_seq() == old(self).builtins_seq().push(builtin),
            !ok ==> final(self).builtins_seq() == old(self).builtins_seq(),
    {
        let mut i: usize = 0;
        while i < self.builtins.len()
            invariant
                i <= self.builtins@.len(),
                *self == *old(self),
                forall|k: int| 0 <= k < i ==> !share_a_name(self.builtins@[k], builtin),
            decreases self.builtins@.len() - i,
        {
            if builtins_collide(&self.builtins[i], &builtin) {
                proof {
                    assert(share_a_name(old(self).builtins_seq()[i as int], builtin));
                }
                return false;
            }
            i += 1;
        }
        self.builtins.push(builtin);
        true
    }

    /// The first registered builtin that `token` names, if any.
    pub fn find_builtin(&self, token: &str) -> (r: Option<usize>)
        ensures
            match r {
                Option::Some(i) => i < self.builtins_seq().len() && self.builtins_seq()[
                    i as int
                ].names(token@) && (forall|k: int|
                    0 <= k < i ==> !self.builtins_seq()[k].names(token@)),
                Option::None => !self.has_builtin(token@),
            },
    {
        let mut i: usize = 0;
        while i < self.builtins.len()
            invariant
                i <= self.builtins@.len(),
                forall|k: int| 0 <= k < i ==> !self.builtins@[k].names(token@),
            decreases self.builtins@.len() - i,
        {
            if self.builtins[i].matches(token) {
                return Some(i);
            }
            i += 1;
        }
        None
    }

    /// Resolves `token` to what should run. A builtin that `token` names
    /// always takes precedence — deliberate shadowing of external commands
    /// of the same name. Otherwise the externally resolved executable, as
    /// found by the surrounding program (an explicit path, or the first
    /// match walking the search path in order), runs. Otherwise the token
    /// is unknown: the result is nothing — "command not found", distinct
    /// from any failing status a command could return.
    pub fn dispatch(&self, token: &str, external: Option<Executable>) -> (r: Option<Runnable>)
        ensures
            self.has_builtin(token@) ==> (r matches Option::Some(Runnable::Builtin(i))
                && i < self.builtins_seq().len() && self.builtins_seq()[i as int].names(token@)
                && (forall|k: int| 0 <= k < i ==> !self.builtins_seq()[k].names(token@))),
            !self.has_builtin(token@) ==> match (external, r) {
                (
                    Option::Some(e),
                    Option::Some(Runnable::External(found)),
                ) => found == e,
                (Option::None, Option::None) => true,
                _ => false,
            },
    {
        match self.find_builtin(token) {
            Option::Some(i) => Some(Runnable::Builtin(i)),
            Option::None => match external {
                Option::Some(e) => Some(Runnable::External(e)),
                Option::None => None,
            },
        }
    }
}

/// The locations, in search-path order, where an executable named `token`
/// may stand: each search directory's absolute path, a `/`, then the
/// token. The surrounding program probes them in order and stops at the
/// first that is an executable file.
pub fn search_candidates(env: &Environment, token: &str) -> (r: Vec<String>)
    ensures
        r.deep_view() == env@.path.map_values(|d: PathView| d.abs + seq!['/'] + token@),
{
    let ghost target = env@.path.map_values(|d: PathView| d.abs + seq!['/'] + token@);
    let mut out: Vec<String> = Vec::new();
    let n = env.path_len();
    let mut i: usize = 0;
    proof {
        assert(out.deep_view() =~= target.take(0));
    }
    while i < n
        invariant
            n == env@.path.len(),
            i <= n,
            target == env@.path.map_values(|d: PathView| d.abs + seq!['/'] + token@),
            out.deep_view() == target.take(i as int),
        decreases n - i,
    {
        let ghost dv = out.deep_view();
        let mut candidate = env.path_dir(i).absolute().clone();
        candidate.append("/");
        candidate.append(token);
        proof {
            reveal_strlit("/");
            assert(candidate@ =~= env@.path[i as int].abs + seq!['/'] + token@);
        }
        out.push(candidate);
        proof {
            assert(out.deep_view() =~= dv.push(target[i as int]));
            assert(out.deep_view() =~= target.take(i + 1));
        }
        i += 1;
    }
    proof {
        assert(target.take(n as int) =~= target);
    }
    out
}

} // verus!
