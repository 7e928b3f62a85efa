//! A filesystem location, kept in canonical absolute form together with a
//! user-facing shortened form: the home directory collapses to `~`, and an
//! optional truncation factor caps the characters kept per `/`-delimited
//! segment.
//!
//! Locations are plain character strings here. Turning a raw string into a
//! canonical absolute location needs the filesystem and is done by the
//! surrounding program, which hands the canonical result in.

use vstd::prelude::*;
use vstd::string::*;

verus! {

/// `s` with its trailing `/` characters dropped: the form in which two
/// location strings name the same directory exactly when they are equal.
/// The root `/` trims to the empty sequence, which every absolute location
/// extends past its leading `/`.
pub open spec fn trim_slashes(s: Seq<char>) -> Seq<char>
    decreases s.len(),
{
    if s.len() > 0 && s.last() == '/' {
        trim_slashes(s.drop_last())
    } else {
        s
    }
}

/// `abs` lies strictly below `home` as a filesystem path: it extends the
/// trimmed home past a `/` boundary. With the root as home, that boundary
/// is the leading `/` of `abs` itself.
pub open spec fn strictly_inside(abs: Seq<char>, home: Seq<char>) -> bool {
    let h = trim_slashes(home);
    &&& abs.len() > h.len()
    &&& abs.take(h.len() as int) == h
    &&& abs[h.len() as int] == '/'
}

/// The home-collapsed form: exactly `~` for the home directory itself
/// (however many trailing slashes either side carries), `~/` plus the
/// relative suffix — the part past the separator — for a location strictly
/// inside it, and the absolute form unchanged for a location outside it.
pub open spec fn collapse_home(abs: Seq<char>, home: Seq<char>) -> Seq<char> {
    let h = trim_slashes(home);
    if trim_slashes(abs) == h {
        seq!['~']
    } else if strictly_inside(abs, home) {
        seq!['~', '/'] + abs.skip(h.len() as int + 1)
    } else {
        abs
    }
}

/// Index of the first occurrence of `sep` in `s`, or `s.len()` if absent.
pub open spec fn first_sep(s: Seq<char>, sep: char) -> nat
    decreases s.len(),
{
    if s.len() == 0 {
        0
    } else if s[0] == sep {
        0
    } else {
        1 + first_sep(s.skip(1), sep)
    }
}

pub proof fn lemma_first_sep(s: Seq<char>, sep: char)
    ensures
        first_sep(s, sep) <= s.len(),
        forall|j: int| 0 <= j < first_sep(s, sep) ==> s[j] != sep,
        first_sep(s, sep) < s.len() ==> s[first_sep(s, sep) as int] == sep,
    decreases s.len(),
{
    if s.len() == 0 {
    } else if s[0] == sep {
    } else {
        lemma_first_sep(s.skip(1), sep);
        assert(forall|j: int| 0 <= j < first_sep(s.skip(1), sep) ==> s.skip(1)[j] != sep);
        assert forall|j: int| 0 <= j < first_sep(s, sep) implies s[j] != sep by {
            if j > 0 {
                assert(s.skip(1)[j - 1] == s[j]);
            }
        }
        if first_sep(s, sep) < s.len() {
            assert(s.skip(1)[first_sep(s.skip(1), sep) as int] == s[first_sep(s, sep) as int]);
        }
    }
}

/// `sep` first occurs in `s` exactly at `i`.
pub proof fn lemma_first_sep_at(s: Seq<char>, sep: char, i: int)
    requires
        0 <= i < s.len(),
        s[i] == sep,
        forall|j: int| 0 <= j < i ==> s[j] != sep,
    ensures
        first_sep(s, sep) == i,
{
    lemma_first_sep(s, sep);
    let f = first_sep(s, sep) as int;
    if f < i {
        assert(s[f] != sep);
    } else if f > i {
        assert(s[i] != sep);
    }
}

/// `sep` does not occur in `s` at all.
pub proof fn lemma_first_sep_none(s: Seq<char>, sep: char)
    requires
        forall|j: int| 0 <= j < s.len() ==> s[j] != sep,
    ensures
        first_sep(s, sep) == s.len(),
{
    lemma_first_sep(s, sep);
    if first_sep(s, sep) < s.len() {
        assert(s[first_sep(s, sep) as int] != sep);
    }
}

/// The `sep`-delimited segments of `s`, in order. Splitting the empty
/// sequence gives one empty segment, as splitting a string does.
pub open spec fn split_on(s: Seq<char>, sep: char) -> Seq<Seq<char>>
    decreases s.len(),
{
    let i = first_sep(s, sep);
    if i >= s.len() {
        seq![s]
    } else {
        seq![s.take(i as int)] + split_on(s.skip(i as int + 1), sep)
    }
}

/// The segments joined back together with `sep` between each pair.
pub open spec fn join_with(parts: Seq<Seq<char>>, sep: char) -> Seq<char>
    decreases parts.len(),
{
    if parts.len() == 0 {
        Seq::empty()
    } else if parts.len() == 1 {
        parts[0]
    } else {
        parts[0] + seq![sep] + join_with(parts.skip(1), sep)
    }
}

/// A segment capped at `factor` characters; shorter segments are unchanged.
pub open spec fn truncate_segment(seg: Seq<char>, factor: nat) -> Seq<char> {
    if seg.len() <= factor {
        seg
    } else {
        seg.take(factor as int)
    }
}

/// Every `/`-delimited segment of `s` capped at `factor` characters.
pub open spec fn truncate_segments(s: Seq<char>, factor: nat) -> Seq<char> {
    join_with(split_on(s, '/').map_values(|seg: Seq<char>| truncate_segment(seg, factor)), '/')
}

/// The shortened form: home-collapsed, then segment-truncated if a
/// truncation factor is set.
pub open spec fn shortened_spec(abs: Seq<char>, home: Seq<char>, factor: Option<usize>) -> Seq<
    char,
> {
    match factor {
        Option::None => collapse_home(abs, home),
        Option::Some(f) => truncate_segments(collapse_home(abs, home), f as nat),
    }
}

pub proof fn lemma_split_on_len(s: Seq<char>, sep: char)
    ensures
        split_on(s, sep).len() >= 1,
    decreases s.len(),
{
    let i = first_sep(s, sep);
    if i >= s.len() {
    } else {
        lemma_first_sep(s, sep);
        lemma_split_on_len(s.skip(i as int + 1), sep);
    }
}

/// Truncating a sequence without any separator is truncating its one segment.
pub proof fn lemma_truncate_segments_whole(s: Seq<char>, factor: nat)
    requires
        forall|j: int| 0 <= j < s.len() ==> s[j] != '/',
    ensures
        truncate_segments(s, factor) == truncate_segment(s, factor),
{
    lemma_first_sep_none(s, '/');
    let parts = split_on(s, '/');
    assert(parts == seq![s]);
    let mapped = parts.map_values(|seg: Seq<char>| truncate_segment(seg, factor));
    assert(mapped =~= seq![truncate_segment(s, factor)]);
}

/// Peeling the first segment off: if the first separator of `s` stands at
/// `i`, the truncation of `s` is the truncated head segment, the separator,
/// then the truncation of the rest.
pub proof fn lemma_truncate_segments_head(s: Seq<char>, factor: nat, i: int)
    requires
        0 <= i < s.len(),
        s[i] == '/',
        forall|j: int| 0 <= j < i ==> s[j] != '/',
    ensures
        truncate_segments(s, factor) == truncate_segment(s.take(i), factor) + seq!['/']
            + truncate_segments(s.skip(i + 1), factor),
{
    lemma_first_sep_at(s, '/', i);
    let rest = s.skip(i + 1);
    let parts = split_on(s, '/');
    assert(parts == seq![s.take(i)] + split_on(rest, '/'));
    let f = |seg: Seq<char>| truncate_segment(seg, factor);
    let mapped = parts.map_values(f);
    let mapped_rest = split_on(rest, '/').map_values(f);
    assert(mapped =~= seq![truncate_segment(s.take(i), factor)] + mapped_rest);
    lemma_split_on_len(rest, '/');
    assert(mapped.len() >= 2);
    assert(mapped[0] == truncate_segment(s.take(i), factor));
    assert(mapped.skip(1) =~= mapped_rest);
}

/// A directory path in canonical absolute form, with the home directory it
/// shortens against, the eagerly recomputed shortened form, and the
/// truncation factor in force.
pub struct Path {
    absolute_path: String,
    home_directory: String,
    shortened_path: String,
    truncation_factor: Option<usize>,
}

/// The mathematical value of a `Path`.
pub struct PathView {
    pub abs: Seq<char>,
    pub home: Seq<char>,
    pub short: Seq<char>,
    pub trunc: Option<usize>,
}

impl View for Path {
    type V = PathView;

    closed spec fn view(&self) -> PathView {
        PathView {
            abs: self.absolute_path@,
            home: self.home_directory@,
            short: self.shortened_path@,
            trunc: self.truncation_factor,
        }
    }
}

/// The shortened form is in step with the location, home directory and
/// truncation factor; constructors establish this and mutators keep it.
pub open spec fn path_view_wf(v: PathView) -> bool {
    v.short == shortened_spec(v.abs, v.home, v.trunc)
}

/// The view after changing the truncation factor: the factor is installed
/// and the shortened form recomputed; nothing else moves.
pub open spec fn with_truncation(v: PathView, factor: Option<usize>) -> PathView {
    PathView { trunc: factor, short: shortened_spec(v.abs, v.home, factor), ..v }
}

/// The view after re-pointing the path at a new absolute location: the
/// location is installed and the shortened form recomputed; nothing else
/// moves.
pub open spec fn with_location(v: PathView, abs: Seq<char>) -> PathView {
    PathView { abs: abs, short: shortened_spec(abs, v.home, v.trunc), ..v }
}

impl Path {
    pub open spec fn wf(&self) -> bool {
        path_view_wf(self@)
    }

    /// Gets the absolute path, with all directory names included.
    pub fn absolute(&self) -> (r: &String)
        ensures
            r@ == self@.abs,
    {
        &self.absolute_path
    }

    /// Gets the shortened version of the path: home collapsed, segments
    /// truncated when a truncation factor is set.
    pub fn short(&self) -> (r: &String)
        ensures
            r@ == self@.short,
    {
        &self.shortened_path
    }

    /// Constructs a Path at an already-canonical absolute location, taking
    /// the user's home directory into account so it can be collapsed into
    /// the shorthand `~`.
    pub fn new(absolute_path: String, home_directory: &String) -> (r: Path)
        ensures
            r@.abs == absolute_path@,
            r@.home == home_directory@,
            r@.trunc == Option::<usize>::None,
            r.wf(),
    {
        let mut path = Path {
            absolute_path,
            home_directory: home_directory.clone(),
            shortened_path: String::new(),
            truncation_factor: None,
        };
        path.update_shortened_path();
        path
    }

    /// Constructs a Path from the result of resolving a raw string against
    /// the filesystem: the canonical location on success, nothing when the
    /// raw string did not resolve.
    pub fn from_str_path(resolved: Option<String>, home_directory: &String) -> (r: Option<Path>)
        ensures
            r is Some <==> resolved is Some,
            resolved matches Option::Some(abs) ==> (r matches Option::Some(p) && p@.abs == abs@
                && p@.home == home_directory@ && p@.trunc is None && p.wf()),
    {
        match resolved {
            Option::Some(absolute_path) => Some(Path::new(absolute_path, home_directory)),
            Option::None => None,
        }
    }

    /// Sets the Path truncation factor and recomputes the shortened form.
    pub fn set_truncation(&mut self, factor: usize)
        ensures
            final(self)@ == with_truncation(old(self)@, Option::Some(factor)),
            final(self).wf(),
    {
        self.truncation_factor = Some(factor);
        self.update_shortened_path();
    }

    /// Disables Path truncation and recomputes the shortened form.
    pub fn disable_truncation(&mut self)
        ensures
            final(self)@ == with_truncation(old(self)@, Option::<usize>::None),
            final(self).wf(),
    {
        self.truncation_factor = None;
        self.update_shortened_path();
    }

    /// Re-points the Path at a new location, given the result of resolving
    /// the raw target against the filesystem: on success the location is
    /// replaced and the shortened form recomputed; on failure the Path is
    /// unchanged.
    pub fn set_path(&mut self, resolved: Option<String>) -> (ok: bool)
        ensures
            match resolved {
                Option::None => !ok && *final(self) == *old(self),
                Option::Some(abs) => ok && final(self)@ == with_location(old(self)@, abs@)
                    && final(self).wf(),
            },
    {
        match resolved {
            Option::None => false,
            Option::Some(new_absolute_path) => {
                self.absolute_path = new_absolute_path;
                self.update_shortened_path();
                true
            },
        }
    }

    /// Re-generates the shortened path based on the current settings.
    pub fn update_shortened_path(&mut self)
        ensures
            final(self)@ == (PathView {
                short: shortened_spec(old(self)@.abs, old(self)@.home, old(self)@.trunc),
                ..old(self)@
            }),
            final(self).wf(),
    {
        let collapsed = self.compute_collapsed();
        match self.truncation_factor {
            Option::None => {
                self.shortened_path = collapsed;
            },
            Option::Some(factor) => {
                self.shortened_path = truncate_collapsed(&collapsed, factor);
            },
        }
    }

    /// The home-collapsed (but untruncated) form of the absolute path.
    fn compute_collapsed(&self) -> (r: String)
        ensures
            r@ == collapse_home(self@.abs, self@.home),
    {
        let abs_len = self.absolute_path.as_str().unicode_len();
        let abs_trim_len = trimmed_len(self.absolute_path.as_str());
        let home_trim_len = trimmed_len(self.home_directory.as_str());
        let abs_trimmed = self.absolute_path.as_str().substring_char(0, abs_trim_len).to_owned();
        let home_trimmed = self.home_directory.as_str().substring_char(0, home_trim_len).to_owned();
        proof {
            assert(abs_trimmed@ =~= trim_slashes(self@.abs));
            assert(home_trimmed@ =~= trim_slashes(self@.home));
        }
        if abs_trimmed.eq(&home_trimmed) {
            let r = "~".to_owned();
            proof {
                reveal_strlit("~");
                assert(r@ =~= seq!['~']);
            }
            r
        } else if abs_len > home_trim_len {
            let prefix = self.absolute_path.as_str().substring_char(0, home_trim_len).to_owned();
            if prefix.eq(&home_trimmed) && self.absolute_path.as_str().get_char(home_trim_len)
                == '/' {
                let mut r = "~/".to_owned();
                let suffix = self.absolute_path.as_str().substring_char(home_trim_len + 1, abs_len);
                r.append(suffix);
                proof {
                    reveal_strlit("~/");
                    assert(self@.abs.take(home_trim_len as int) =~= self@.abs.subrange(
                        0,
                        home_trim_len as int,
                    ));
                    assert(strictly_inside(self@.abs, self@.home));
                    assert(r@ =~= seq!['~', '/'] + self@.abs.skip(home_trim_len as int + 1));
                }
                r
            } else {
                proof {
                    assert(self@.abs.take(home_trim_len as int) =~= self@.abs.subrange(
                        0,
                        home_trim_len as int,
                    ));
                    assert(!strictly_inside(self@.abs, self@.home));
                }
                self.absolute_path.clone()
            }
        } else {
            proof {
                assert(!strictly_inside(self@.abs, self@.home));
            }
            self.absolute_path.clone()
        }
    }
}

/// The length of `s` once its trailing `/` characters are dropped.
fn trimmed_len(s: &str) -> (r: usize)
    ensures
        r <= s@.len(),
        s@.take(r as int) == trim_slashes(s@),
{
    let n = s.unicode_len();
    let mut k = n;
    proof {
        assert(s@.take(n as int) =~= s@);
    }
    while k > 0 && s.get_char(k - 1) == '/'
        invariant
            k <= n,
            n == s@.len(),
            trim_slashes(s@) == trim_slashes(s@.take(k as int)),
        decreases k,
    {
        proof {
            assert(s@.take(k as int).last() == s@[k - 1]);
            assert(s@.take(k as int).drop_last() =~= s@.take(k - 1));
        }
        k = k - 1;
    }
    proof {
        if k > 0 {
            assert(s@.take(k as int).last() == s@[k - 1]);
        }
        assert(trim_slashes(s@.take(k as int)) == s@.take(k as int));
    }
    k
}

/// Caps every `/`-delimited segment of `collapsed` at `factor` characters,
/// walking the segments left to right.
fn truncate_collapsed(collapsed: &String, factor: usize) -> (r: String)
    ensures
        r@ == truncate_segments(collapsed@, factor as nat),
{
    let n = collapsed.as_str().unicode_len();
    let mut out = String::new();
    let mut seg_start: usize = 0;
    proof {
        assert(collapsed@.skip(0) =~= collapsed@);
    }
    loop
        invariant_except_break
            n == collapsed@.len(),
            seg_start <= n,
            truncate_segments(collapsed@, factor as nat) == out@ + truncate_segments(
                collapsed@.skip(seg_start as int),
                factor as nat,
            ),
        ensures
            out@ == truncate_segments(collapsed@, factor as nat),
        decreases n - seg_start,
    {
        let ghost rem = collapsed@.skip(seg_start as int);
        let mut j = seg_start;
        while j < n && collapsed.as_str().get_char(j) != '/'
            invariant
                n == collapsed@.len(),
                seg_start <= j <= n,
                forall|k: int| seg_start <= k < j ==> collapsed@[k] != '/',
            decreases n - j,
        {
            j += 1;
        }
        let end = if j - seg_start > factor {
            seg_start + factor
        } else {
            j
        };
        let piece = collapsed.as_str().substring_char(seg_start, end);
        out.append(piece);
        proof {
            assert(rem.len() == n - seg_start);
            assert(forall|k: int|
                0 <= k < j - seg_start ==> rem[k] == collapsed@[seg_start + k] && rem[k] != '/');
            assert(rem.take(j - seg_start) =~= collapsed@.subrange(seg_start as int, j as int));
            assert(truncate_segment(rem.take(j - seg_start), factor as nat) =~= piece@);
        }
        if j < n {
            out.append("/");
            proof {
                reveal_strlit("/");
                assert(rem[j - seg_start] == collapsed@[j as int]);
                lemma_truncate_segments_head(rem, factor as nat, j - seg_start);
                assert("/"@ =~= seq!['/']);
                assert(rem.skip(j - seg_start + 1) =~= collapsed@.skip(j as int + 1));
            }
            seg_start = j + 1;
        } else {
            proof {
                assert(forall|k: int| 0 <= k < rem.len() ==> rem[k] != '/');
                lemma_truncate_segments_whole(rem, factor as nat);
                assert(rem.take(j - seg_start) =~= rem);
            }
            break ;
        }
    }
    out
}

/// The home shorthand expanded: a string that starts with `~` has that
/// leading marker (and only it) replaced by the home directory; any other
/// string is unchanged. A `~` anywhere else is an ordinary filename
/// character.
pub open spec fn expand_home_spec(s: Seq<char>, home: Seq<char>) -> Seq<char> {
    if s.len() > 0 && s[0] == '~' {
        home + s.skip(1)
    } else {
        s
    }
}

/// Expands a leading home-directory shorthand `~` to the home directory's
/// absolute form, so the result can be resolved against the filesystem.
pub fn expand_home(path: &str, home_directory: &String) -> (r: String)
    ensures
        r@ == expand_home_spec(path@, home_directory@),
{
    let n = path.unicode_len();
    if n == 0 || path.get_char(0) != '~' {
        return path.to_owned();
    }
    let mut out = home_directory.clone();
    out.append(path.substring_char(1, n));
    proof {
        assert(out@ =~= home_directory@ + path@.skip(1));
    }
    out
}

impl PartialEq for Path {
    /// Two Paths are equal when every attribute agrees: location, home
    /// directory, shortened form and truncation factor.
    fn eq(&self, other: &Path) -> (r: bool) {
        let r = self.absolute_path == other.absolute_path && self.home_directory
            == other.home_directory && self.shortened_path == other.shortened_path && (match (
            self.truncation_factor,
            other.truncation_factor,
        ) {
            (Option::Some(a), Option::Some(b)) => a == b,
            (Option::None, Option::None) => true,
            _ => false,
        });
        proof {
            if r {
                assert(self@ == other@);
            }
        }
        r
    }
}

impl Eq for Path {

}

impl vstd::std_specs::cmp::PartialEqSpecImpl for Path {
    open spec fn obeys_eq_spec() -> bool {
        true
    }

    open spec fn eq_spec(&self, other: &Path) -> bool {
        self@ == other@
    }
}

impl Clone for Path {
    /// A clone carries every attribute over unchanged.
    fn clone(&self) -> (r: Self)
        ensures
            r == *self,
    {
        Path {
            absolute_path: self.absolute_path.clone(),
            home_directory: self.home_directory.clone(),
            shortened_path: self.shortened_path.clone(),
            truncation_factor: self.truncation_factor,
        }
    }
}

/// A location equal to the home directory — equal as a filesystem path,
/// whatever trailing slashes either string carries — shortens to exactly
/// `~` (never `~/`), as long as no truncation factor below one is in
/// force.
pub proof fn lemma_short_form_of_home(abs: Seq<char>, home: Seq<char>, factor: Option<usize>)
    requires
        trim_slashes(abs) == trim_slashes(home),
        factor matches Option::Some(f) ==> f >= 1,
    ensures
        shortened_spec(abs, home, factor) == seq!['~'],
{
    match factor {
        Option::None => {},
        Option::Some(f) => {
            assert(forall|j: int| 0 <= j < seq!['~'].len() ==> seq!['~'][j] != '/');
            lemma_truncate_segments_whole(seq!['~'], f as nat);
        },
    }
}

/// A location strictly inside the home directory shortens to `~/` followed
/// by the suffix relative to home, when no truncation is in force. The one
/// location that extends the trimmed home past a `/` and is still not
/// strictly inside it is the home itself written with trailing slashes;
/// that one collapses to `~`, so it is left out here.
pub proof fn lemma_short_form_inside_home(abs: Seq<char>, home: Seq<char>)
    requires
        strictly_inside(abs, home),
        trim_slashes(abs) != trim_slashes(home),
    ensures
        shortened_spec(abs, home, Option::None) == seq!['~', '/'] + abs.skip(
            trim_slashes(home).len() as int + 1,
        ),
{
}

/// A location outside the home directory shortens to its own absolute
/// form, when no truncation is in force.
pub proof fn lemma_short_form_outside_home(abs: Seq<char>, home: Seq<char>)
    requires
        trim_slashes(abs) != trim_slashes(home),
        !strictly_inside(abs, home),
    ensures
        shortened_spec(abs, home, Option::None) == abs,
{
}

/// Setting the same truncation factor twice yields the same view as
/// setting it once: truncation is idempotent.
pub proof fn lemma_truncation_idempotent(v: PathView, factor: usize)
    ensures
        with_truncation(with_truncation(v, Option::Some(factor)), Option::Some(factor))
            == with_truncation(v, Option::Some(factor)),
{
}

} // verus!
