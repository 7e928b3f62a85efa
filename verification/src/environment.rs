//! The shell environment: user name, home directory, current working
//! directory, executable search path, and the back/forward directory
//! histories.
//!
//! Reading the host process's variables and writing changes back to it is
//! I/O and happens in the surrounding program; this module takes the values
//! read (and the resolution results for each location) and owns every
//! decision made from them.

use std::collections::VecDeque;

use vstd::prelude::*;

use crate::errors::ShellError;
use crate::path::{Path, PathView, split_on};

verus! {

/// Identifier for the environment variables the shell recognizes.
#[derive(Debug, Clone, Copy, PartialEq, Eq, Structural)]
pub enum EnvVariable {
    User,
    Home,
    Cwd,
    Path,
}

impl EnvVariable {
    /// The variable's name as the shell displays it.
    pub fn name_string(self) -> (r: String)
        ensures
            self == EnvVariable::User ==> r@ == "USER"@,
            self == EnvVariable::Home ==> r@ == "HOME"@,
            self == EnvVariable::Cwd ==> r@ == "CWD"@,
            self == EnvVariable::Path ==> r@ == "PATH"@,
    {
        match self {
            EnvVariable::User => "USER".to_owned(),
            EnvVariable::Home => "HOME".to_owned(),
            EnvVariable::Cwd => "CWD".to_owned(),
            EnvVariable::Path => "PATH".to_owned(),
        }
    }

    /// Does the same thing as `name_string`, but uses the legacy variable
    /// names of the host environment, where the current directory is `PWD`.
    pub fn to_legacy_string(self) -> (r: String)
        ensures
            self == EnvVariable::User ==> r@ == "USER"@,
            self == EnvVariable::Home ==> r@ == "HOME"@,
            self == EnvVariable::Cwd ==> r@ == "PWD"@,
            self == EnvVariable::Path ==> r@ == "PATH"@,
    {
        match self {
            EnvVariable::User => "USER".to_owned(),
            EnvVariable::Home => "HOME".to_owned(),
            EnvVariable::Cwd => "PWD".to_owned(),
            EnvVariable::Path => "PATH".to_owned(),
        }
    }
}

/// What the surrounding program read from the host process environment at
/// startup: the raw values of the recognized variables (`None` where a
/// variable was absent), the resolution of the current-directory value
/// against the filesystem, and the resolution of each search-path segment
/// (in segment order, `None` where a segment did not resolve).
pub struct EnvSnapshot {
    pub user: Option<String>,
    pub home: Option<String>,
    pub cwd: Option<String>,
    pub path: Option<String>,
    pub cwd_resolved: Option<Path>,
    pub path_dirs: Vec<Option<Path>>,
}

/// The shell environment: the variables it owns, the search path, and the
/// back/forward directory histories (back-history most-recent-last,
/// forward-history most-recent-first).
#[allow(non_snake_case)]
pub struct Environment {
    pub USER: String,
    pub HOME: String,
    pub CWD: Path,
    backward_directories: VecDeque<Path>,
    forward_directories: VecDeque<Path>,
    pub PATH: VecDeque<Path>,
    custom_variables: Vec<(String, String)>,
}

/// The mathematical value of an `Environment`.
pub struct EnvView {
    pub user: Seq<char>,
    pub home: Seq<char>,
    pub cwd: PathView,
    pub back: Seq<PathView>,
    pub fwd: Seq<PathView>,
    pub path: Seq<PathView>,
    pub vars: Seq<(Seq<char>, Seq<char>)>,
}

impl View for Environment {
    type V = EnvView;

    closed spec fn view(&self) -> EnvView {
        EnvView {
            user: self.USER@,
            home: self.HOME@,
            cwd: self.CWD@,
            back: self.backward_directories@.map_values(|p: Path| p@),
            fwd: self.forward_directories@.map_values(|p: Path| p@),
            path: self.PATH@.map_values(|p: Path| p@),
            vars: self.custom_variables@.map_values(|v: (String, String)| (v.0@, v.1@)),
        }
    }
}

/// The back-history after recording `p`: `p` is appended, then the oldest
/// entries are evicted until the configured limit is met.
pub open spec fn push_bounded(back: Seq<PathView>, p: PathView, limit: Option<usize>) -> Seq<
    PathView,
> {
    let grown = back.push(p);
    match limit {
        Option::None => grown,
        Option::Some(l) => if grown.len() <= l {
            grown
        } else {
            grown.skip(grown.len() - l)
        },
    }
}

/// A bounded history never exceeds its limit, and keeps its newest entry
/// whenever the limit admits one at all.
pub proof fn lemma_push_bounded(back: Seq<PathView>, p: PathView, l: usize)
    ensures
        push_bounded(back, p, Option::Some(l)).len() <= l,
        l >= 1 ==> push_bounded(back, p, Option::Some(l)).len() >= 1 && push_bounded(
            back,
            p,
            Option::Some(l),
        ).last() == p,
{
}

/// The environment after a successful directory change: a target equal to
/// the current directory changes nothing; otherwise the previous current
/// directory is recorded in the (bounded) back-history, the forward-history
/// is cleared and the target is installed.
pub open spec fn set_cwd_view(e: EnvView, d: PathView, limit: Option<usize>) -> EnvView {
    if d == e.cwd {
        e
    } else {
        EnvView { cwd: d, back: push_bounded(e.back, e.cwd, limit), fwd: Seq::empty(), ..e }
    }
}

/// The environment after going back: the newest back-history entry becomes
/// current and the previous current directory moves to the front of the
/// forward-history. Meaningful only when the back-history is non-empty.
pub open spec fn go_back_view(e: EnvView) -> EnvView {
    EnvView { cwd: e.back.last(), back: e.back.drop_last(), fwd: seq![e.cwd] + e.fwd, ..e }
}

/// The environment after going forward: the front forward-history entry
/// becomes current and the previous current directory is appended to the
/// back-history. Meaningful only when the forward-history is non-empty.
pub open spec fn go_forward_view(e: EnvView) -> EnvView {
    EnvView { cwd: e.fwd[0], fwd: e.fwd.skip(1), back: e.back.push(e.cwd), ..e }
}

/// The views of the search-path segments that resolved, in order; segments
/// that failed to resolve are dropped.
pub open spec fn kept_dirs(dirs: Seq<Option<Path>>) -> Seq<PathView>
    decreases dirs.len(),
{
    if dirs.len() == 0 {
        Seq::empty()
    } else {
        let rest = kept_dirs(dirs.skip(1));
        match dirs[0] {
            Option::Some(p) => seq![p@] + rest,
            Option::None => rest,
        }
    }
}

/// Splits the raw search-path variable on the path-list separator `:`.
/// Splitting keeps empty segments, as the host convention does.
pub fn split_search_path(path: &str) -> (r: Vec<String>)
    ensures
        r.deep_view() == split_on(path@, ':'),
{
    let n = path.unicode_len();
    let mut out: Vec<String> = Vec::new();
    let mut seg_start: usize = 0;
    proof {
        assert(path@.skip(0) =~= path@);
        assert(out.deep_view() =~= Seq::<Seq<char>>::empty());
    }
    loop
        invariant_except_break
            n == path@.len(),
            seg_start <= n,
            split_on(path@, ':') == out.deep_view() + split_on(path@.skip(seg_start as int), ':'),
        ensures
            out.deep_view() == split_on(path@, ':'),
        decreases n - seg_start,
    {
        let ghost rem = path@.skip(seg_start as int);
        let ghost old_dv = out.deep_view();
        let mut j = seg_start;
        while j < n && path.get_char(j) != ':'
            invariant
                n == path@.len(),
                seg_start <= j <= n,
                forall|k: int| seg_start <= k < j ==> path@[k] != ':',
            decreases n - j,
        {
            j += 1;
        }
        let piece = path.substring_char(seg_start, j).to_owned();
        out.push(piece);
        proof {
            assert(forall|k: int|
                0 <= k < j - seg_start ==> rem[k] == path@[seg_start + k] && rem[k] != ':');
            assert(rem.take(j - seg_start) =~= path@.subrange(seg_start as int, j as int));
            assert(out.deep_view() =~= old_dv.push(piece@));
        }
        if j < n {
            proof {
                assert(rem[j - seg_start] == path@[j as int]);
                crate::path::lemma_first_sep_at(rem, ':', j - seg_start);
                assert(rem.skip(j - seg_start + 1) =~= path@.skip(j as int + 1));
                assert(split_on(rem, ':') == seq![rem.take(j - seg_start)] + split_on(
                    path@.skip(j as int + 1),
                    ':',
                ));
                assert(out.deep_view() + split_on(path@.skip(j as int + 1), ':') =~= old_dv + (
                seq![rem.take(j - seg_start)] + split_on(path@.skip(j as int + 1), ':')));
            }
            seg_start = j + 1;
        } else {
            proof {
                assert(forall|k: int| 0 <= k < rem.len() ==> rem[k] != ':');
                crate::path::lemma_first_sep_none(rem, ':');
                assert(split_on(rem, ':') == seq![rem]);
                assert(rem.take(j - seg_start) =~= rem);
                assert(out.deep_view() =~= old_dv + seq![rem]);
            }
            break ;
        }
    }
    out
}

/// Collects the resolved search-path segments into the search path,
/// silently dropping the segments that failed to resolve.
pub fn convert_path(resolved_dirs: Vec<Option<Path>>) -> (r: VecDeque<Path>)
    ensures
        r@.map_values(|p: Path| p@) == kept_dirs(resolved_dirs@),
{
    let ghost orig = resolved_dirs@;
    let mut remaining = resolved_dirs;
    let mut paths: VecDeque<Path> = VecDeque::new();
    proof {
        assert(paths@.map_values(|p: Path| p@) =~= Seq::<PathView>::empty());
    }
    while remaining.len() > 0
        invariant
            kept_dirs(orig) == paths@.map_values(|p: Path| p@) + kept_dirs(remaining@),
        decreases remaining.len(),
    {
        let ghost before = remaining@;
        let ghost paths_before = paths@;
        let head = remaining.remove(0);
        proof {
            assert(remaining@ =~= before.skip(1));
        }
        match head {
            Option::Some(p) => {
                paths.push_back(p);
                proof {
                    assert(paths@.map_values(|q: Path| q@) =~= paths_before.map_values(
                        |q: Path| q@,
                    ).push(p@));
                    assert(paths_before.map_values(|q: Path| q@).push(p@) + kept_dirs(before.skip(1))
                        =~= paths_before.map_values(|q: Path| q@) + (seq![p@] + kept_dirs(
                        before.skip(1),
                    )));
                }
            },
            Option::None => {},
        }
    }
    proof {
        assert(kept_dirs(remaining@) =~= Seq::<PathView>::empty());
        assert(paths@.map_values(|p: Path| p@) + kept_dirs(remaining@) =~= paths@.map_values(
            |p: Path| p@,
        ));
    }
    paths
}

#[allow(non_snake_case)]
impl Environment {
    /// Builds the environment from what was read at startup. Each
    /// recognized variable must have been present, or construction fails
    /// with `MissingEnvironmentVariable` naming the first absent one; a
    /// current-directory value that did not resolve fails with
    /// `PathResolutionError`. Search-path segments that did not resolve are
    /// silently dropped. Both histories start empty.
    pub fn new(snapshot: EnvSnapshot) -> (r: Result<Environment, ShellError>)
        ensures
            snapshot.user is None ==> r == Result::<Environment, ShellError>::Err(
                ShellError::MissingEnvironmentVariable(EnvVariable::User),
            ),
            snapshot.user is Some && snapshot.home is None ==> r == Result::<
                Environment,
                ShellError,
            >::Err(ShellError::MissingEnvironmentVariable(EnvVariable::Home)),
            snapshot.user is Some && snapshot.home is Some && snapshot.cwd is None ==> r
                == Result::<Environment, ShellError>::Err(
                ShellError::MissingEnvironmentVariable(EnvVariable::Cwd),
            ),
            snapshot.user is Some && snapshot.home is Some && snapshot.cwd is Some
                && snapshot.path is None ==> r == Result::<Environment, ShellError>::Err(
                ShellError::MissingEnvironmentVariable(EnvVariable::Path),
            ),
            snapshot.user is Some && snapshot.home is Some && snapshot.cwd is Some && snapshot.path
                is Some && snapshot.cwd_resolved is None ==> r == Result::<
                Environment,
                ShellError,
            >::Err(ShellError::PathResolutionError),
            snapshot.user is Some && snapshot.home is Some && snapshot.cwd is Some && snapshot.path
                is Some && snapshot.cwd_resolved is Some ==> (r matches Result::Ok(env)
                && env@.user == snapshot.user.unwrap()@ && env@.home == snapshot.home.unwrap()@
                && env@.cwd == snapshot.cwd_resolved.unwrap()@ && env@.back == Seq::<
                PathView,
            >::empty() && env@.fwd == Seq::<PathView>::empty() && env@.path == kept_dirs(
                snapshot.path_dirs@,
            ) && env@.vars == Seq::<(Seq<char>, Seq<char>)>::empty()),
    {
        let EnvSnapshot { user, home, cwd, path, cwd_resolved, path_dirs } = snapshot;
        let user = match user {
            Option::Some(u) => u,
            Option::None => {
                return Err(ShellError::MissingEnvironmentVariable(EnvVariable::User));
            },
        };
        let home = match home {
            Option::Some(h) => h,
            Option::None => {
                return Err(ShellError::MissingEnvironmentVariable(EnvVariable::Home));
            },
        };
        if cwd.is_none() {
            return Err(ShellError::MissingEnvironmentVariable(EnvVariable::Cwd));
        }
        if path.is_none() {
            return Err(ShellError::MissingEnvironmentVariable(EnvVariable::Path));
        }
        let cwd_path = match cwd_resolved {
            Option::Some(p) => p,
            Option::None => {
                return Err(ShellError::PathResolutionError);
            },
        };
        let env = Environment {
            USER: user,
            HOME: home,
            CWD: cwd_path,
            backward_directories: VecDeque::new(),
            forward_directories: VecDeque::new(),
            PATH: convert_path(path_dirs),
            custom_variables: Vec::new(),
        };
        proof {
            assert(env@.back =~= Seq::<PathView>::empty());
            assert(env@.fwd =~= Seq::<PathView>::empty());
            assert(env@.vars =~= Seq::<(Seq<char>, Seq<char>)>::empty());
        }
        Ok(env)
    }

    /// The number of directories on the executable search path.
    pub fn path_len(&self) -> (r: usize)
        ensures
            r == self@.path.len(),
    {
        self.PATH.len()
    }

    /// The search-path directory at `i`, in search order.
    pub fn path_dir(&self, i: usize) -> (r: &Path)
        requires
            i < self@.path.len(),
        ensures
            r@ == self@.path[i as int],
    {
        &self.PATH[i]
    }

    /// Sets the current working directory from the result of resolving the
    /// target against the filesystem, and stores the previous working
    /// directory in the back-history (bounded by `history_limit`, oldest
    /// evicted first); any forward-history is discarded. A target equal to
    /// the current directory changes nothing. On a failed resolution
    /// nothing changes and `DirectoryResolutionError` is returned.
    pub fn set_CWD(&mut self, new_directory: Option<Path>, history_limit: Option<usize>) -> (r:
        Result<(), ShellError>)
        ensures
            new_directory is None ==> r == Result::<(), ShellError>::Err(
                ShellError::DirectoryResolutionError,
            ) && *final(self) == *old(self),
            new_directory matches Option::Some(d) ==> r == Result::<(), ShellError>::Ok(())
                && final(self)@ == set_cwd_view(old(self)@, d@, history_limit),
    {
        let mut new_dir = match new_directory {
            Option::Some(d) => d,
            Option::None => {
                return Err(ShellError::DirectoryResolutionError);
            },
        };
        if new_dir != self.CWD {
            let ghost old_view = self@;
            core::mem::swap(&mut self.CWD, &mut new_dir);
            self.backward_directories.push_back(new_dir);
            self.forward_directories.clear();
            proof {
                assert(self@.back =~= old_view.back.push(old_view.cwd));
                assert(self@.fwd =~= Seq::<PathView>::empty());
            }
            if let Option::Some(limit) = history_limit {
                let ghost grown = self.backward_directories@;
                let ghost pre = *self;
                proof {
                    assert(grown.skip(0) =~= grown);
                }
                while self.backward_directories.len() > limit
                    invariant
                        self.USER == pre.USER,
                        self.HOME == pre.HOME,
                        self.CWD == pre.CWD,
                        self.forward_directories == pre.forward_directories,
                        self.PATH == pre.PATH,
                        self.custom_variables == pre.custom_variables,
                        self.backward_directories@ == grown.skip(
                            grown.len() - self.backward_directories@.len(),
                        ),
                        self.backward_directories@.len() <= grown.len(),
                        self.backward_directories@.len() >= limit
                            || self.backward_directories@.len() == grown.len(),
                    decreases self.backward_directories.len(),
                {
                    let ghost before = self.backward_directories@;
                    let _ = self.backward_directories.pop_front();
                    proof {
                        assert(self.backward_directories@ =~= before.skip(1));
                        assert(self.backward_directories@ =~= grown.skip(
                            grown.len() - self.backward_directories@.len(),
                        ));
                    }
                }
                proof {
                    let kept = self.backward_directories@;
                    let m = |p: Path| p@;
                    if grown.len() <= limit {
                        assert(kept.len() == grown.len());
                        assert(kept =~= grown);
                    } else {
                        assert(kept.len() == limit);
                    }
                    assert(kept.map_values(m) =~= grown.map_values(m).skip(
                        grown.len() - kept.len(),
                    ));
                    assert(grown.map_values(m) =~= old_view.back.push(old_view.cwd));
                    assert(self@.back =~= push_bounded(
                        old_view.back,
                        old_view.cwd,
                        Option::Some(limit),
                    ));
                }
            }
            proof {
                let target = set_cwd_view(old(self)@, new_directory.unwrap()@, history_limit);
                assert(new_directory.unwrap()@ != old(self)@.cwd);
                assert(self@.user == target.user);
                assert(self@.home == target.home);
                assert(self@.cwd == target.cwd);
                assert(self@.back == target.back);
                assert(self@.fwd == target.fwd);
                assert(self@.path == target.path);
                assert(self@.vars == target.vars);
                assert(self@ == target);
            }
        } else {
            proof {
                assert(new_dir@ == old(self)@.cwd);
                assert(*final(self) == *old(self));
            }
        }
        Ok(())
    }

    /// Sets the current working directory to the previous working
    /// directory: the newest back-history entry becomes current and the
    /// directory left behind moves to the front of the forward-history.
    /// Fails with `NoPreviousDirectory`, changing nothing, when the
    /// back-history is empty.
    pub fn go_back(&mut self) -> (r: Result<(), ShellError>)
        ensures
            old(self)@.back.len() == 0 ==> r == Result::<(), ShellError>::Err(
                ShellError::NoPreviousDirectory,
            ) && *final(self) == *old(self),
            old(self)@.back.len() > 0 ==> r == Result::<(), ShellError>::Ok(()) && final(self)@
                == go_back_view(old(self)@),
    {
        let ghost old_view = self@;
        if self.backward_directories.len() == 0 {
            return Err(ShellError::NoPreviousDirectory);
        }
        match self.backward_directories.pop_back() {
            Option::Some(mut previous) => {
                core::mem::swap(&mut self.CWD, &mut previous);
                self.forward_directories.push_front(previous);
                proof {
                    assert(self@.back =~= old_view.back.drop_last());
                    assert(self@.fwd =~= seq![old_view.cwd] + old_view.fwd);
                    assert(self@ == go_back_view(old_view));
                }
                Ok(())
            },
            Option::None => Err(ShellError::NoPreviousDirectory),
        }
    }

    /// Sets the current working directory to the next working directory:
    /// the front forward-history entry becomes current and the directory
    /// left behind is appended to the back-history. Fails with
    /// `NoNextDirectory`, changing nothing, when the forward-history is
    /// empty.
    pub fn go_forward(&mut self) -> (r: Result<(), ShellError>)
        ensures
            old(self)@.fwd.len() == 0 ==> r == Result::<(), ShellError>::Err(
                ShellError::NoNextDirectory,
            ) && *final(self) == *old(self),
            old(self)@.fwd.len() > 0 ==> r == Result::<(), ShellError>::Ok(()) && final(self)@
                == go_forward_view(old(self)@),
    {
        let ghost old_view = self@;
        if self.forward_directories.len() == 0 {
            return Err(ShellError::NoNextDirectory);
        }
        match self.forward_directories.pop_front() {
            Option::Some(mut next) => {
                core::mem::swap(&mut self.CWD, &mut next);
                self.backward_directories.push_back(next);
                proof {
                    assert(self@.back =~= old_view.back.push(old_view.cwd));
                    assert(self@.fwd =~= old_view.fwd.skip(1));
                    assert(self@ == go_forward_view(old_view));
                }
                Ok(())
            },
            Option::None => Err(ShellError::NoNextDirectory),
        }
    }
}

/// After changing directory to `a` and then to a different `b`, going back
/// makes `a` current again, and going forward from there restores `b`.
/// Holds for any history limit that admits at least one entry.
pub proof fn lemma_history_navigation(e: EnvView, a: PathView, b: PathView, limit: Option<usize>)
    requires
        a != b,
        limit matches Option::Some(l) ==> l >= 1,
    ensures
        ({
            let after_b = set_cwd_view(set_cwd_view(e, a, limit), b, limit);
            &&& after_b.back.len() > 0
            &&& go_back_view(after_b).cwd == a
            &&& go_back_view(after_b).fwd.len() > 0
            &&& go_forward_view(go_back_view(after_b)).cwd == b
        }),
{
    let e1 = set_cwd_view(e, a, limit);
    assert(e1.cwd == a);
    let e2 = set_cwd_view(e1, b, limit);
    match limit {
        Option::None => {},
        Option::Some(l) => {
            lemma_push_bounded(e1.back, a, l);
        },
    }
    assert(e2.back.last() == a);
}

/// Right after a navigation, neither history has the current directory as
/// its top entry: a directory change leaves the previous directory, not the
/// new one, on top of the back-history; going back leaves the directory
/// just left on top of the forward-history; going forward leaves it on top
/// of the back-history.
pub proof fn lemma_navigation_keeps_top_distinct(e: EnvView, d: PathView, limit: Option<usize>)
    requires
        limit matches Option::Some(l) ==> l >= 1,
    ensures
        d != e.cwd ==> ({
            let after = set_cwd_view(e, d, limit);
            after.back.len() > 0 && after.back.last() == e.cwd && after.back.last() != after.cwd
        }),
        e.back.len() > 0 && e.back.last() != e.cwd ==> ({
            let after = go_back_view(e);
            after.fwd.len() > 0 && after.fwd[0] == e.cwd && after.fwd[0] != after.cwd
        }),
        e.fwd.len() > 0 && e.fwd[0] != e.cwd ==> ({
            let after = go_forward_view(e);
            after.back.len() > 0 && after.back.last() == e.cwd && after.back.last() != after.cwd
        }),
{
    if d != e.cwd {
        match limit {
            Option::None => {},
            Option::Some(l) => {
                lemma_push_bounded(e.back, e.cwd, l);
            },
        }
    }
}

/// With a history limit of two, three consecutive distinct directory
/// changes leave the back-history holding exactly the two most recent
/// previous directories, and its length never exceeds two.
pub proof fn lemma_history_bound(e: EnvView, d1: PathView, d2: PathView, d3: PathView)
    requires
        d1 != e.cwd,
        d2 != d1,
        d3 != d2,
    ensures
        ({
            let e1 = set_cwd_view(e, d1, Option::Some(2));
            let e2 = set_cwd_view(e1, d2, Option::Some(2));
            let e3 = set_cwd_view(e2, d3, Option::Some(2));
            &&& e1.back.len() <= 2
            &&& e2.back.len() <= 2
            &&& e3.back.len() <= 2
            &&& e3.back == seq![d1, d2]
        }),
{
    let e1 = set_cwd_view(e, d1, Option::Some(2));
    let e2 = set_cwd_view(e1, d2, Option::Some(2));
    let e3 = set_cwd_view(e2, d3, Option::Some(2));
    lemma_push_bounded(e.back, e.cwd, 2);
    lemma_push_bounded(e1.back, d1, 2);
    lemma_push_bounded(e2.back, d2, 2);
    assert(e2.back.last() == d1);
    assert(e3.back =~= seq![d1, d2]);
}

} // verus!
