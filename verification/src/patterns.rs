use vstd::prelude::*;

verus! {

// ---------------------------------------------------------------------------
// Trusted boundary: glob compilation and matching are done by the `globset`
// crate. The library treats a compiled glob as a black box; what a builder or
// a set holds is modelled as a sequence of (pattern, case-insensitive) pairs,
// and the result of parsing or matching a single glob is given a name.
// ---------------------------------------------------------------------------

#[verifier::external_type_specification]
#[verifier::external_body]
pub struct ExGlobSet(globset::GlobSet);

#[verifier::external_type_specification]
#[verifier::external_body]
pub struct ExGlobSetBuilder(globset::GlobSetBuilder);

/// Whether `globset`'s parser accepts `pattern` (compiled with the given
/// case-insensitivity option). Parsing is purely syntactic, so this is a
/// function of the pattern string and the option alone.
pub uninterp spec fn glob_valid(pattern: Seq<char>, case_insensitive: bool) -> bool;

/// Whether the glob compiled from `pattern` (with the given case-insensitivity
/// option) matches `path`. Matching is purely syntactic over the path string,
/// so this is a function of the three arguments alone.
pub uninterp spec fn glob_match(pattern: Seq<char>, case_insensitive: bool, path: Seq<char>) -> bool;

/// The (pattern, case-insensitive) pairs of the globs added to a builder so far.
pub uninterp spec fn builder_patterns(b: globset::GlobSetBuilder) -> Seq<(Seq<char>, bool)>;

/// The (pattern, case-insensitive) pairs of the globs a compiled set was built from.
pub uninterp spec fn globset_patterns(s: globset::GlobSet) -> Seq<(Seq<char>, bool)>;

/// Whether assembling a combined matcher from these already-parsed globs
/// succeeds. The assembly compiles the globs to regular expressions and can
/// only fail on deterministic size limits, so this is a function of the
/// globs alone; for an empty list it always holds.
pub uninterp spec fn globset_build_ok(pats: Seq<(Seq<char>, bool)>) -> bool;

/// A path matches a set of (pattern, case-insensitive) pairs when it matches
/// at least one of them. In particular an empty set matches no path.
pub open spec fn spec_set_matches(pats: Seq<(Seq<char>, bool)>, path: Seq<char>) -> bool {
    exists|i: int| 0 <= i < pats.len() && glob_match(pats[i].0, pats[i].1, path)
}

/// Relies on globset::GlobSetBuilder::new: a fresh builder holds no globs.
#[verifier::external_body]
fn globset_builder_new() -> (b: globset::GlobSetBuilder)
    ensures
        builder_patterns(b) == Seq::<(Seq<char>, bool)>::empty(),
{
    globset::GlobSetBuilder::new()
}

/// Relies on globset::GlobBuilder::{new, case_insensitive, build} to parse one
/// pattern, and on globset::GlobSetBuilder::add to append the compiled glob.
/// Parsing succeeds exactly when the pattern is a valid glob; on failure the
/// builder is left unchanged.
#[verifier::external_body]
fn glob_compile_into(b: &mut globset::GlobSetBuilder, pattern: &str, case_insensitive: bool) -> (ok: bool)
    ensures
        ok == glob_valid(pattern@, case_insensitive),
        ok ==> builder_patterns(*final(b)) == builder_patterns(*old(b)).push((pattern@, case_insensitive)),
        !ok ==> builder_patterns(*final(b)) == builder_patterns(*old(b)),
{
    match globset::GlobBuilder::new(pattern).case_insensitive(case_insensitive).build() {
        Ok(glob) => {
            b.add(glob);
            true
        }
        Err(_) => false,
    }
}

/// Relies on globset::GlobSetBuilder::build: whether it succeeds depends on
/// the added globs alone, and it always does for an empty builder (the empty
/// set); on success the set holds exactly the globs added to the builder.
/// The error text is globset's own message.
#[verifier::external_body]
fn globset_builder_build(b: &globset::GlobSetBuilder) -> (r: Result<globset::GlobSet, String>)
    ensures
        r is Ok <==> globset_build_ok(builder_patterns(*b)),
        r is Ok ==> globset_patterns(r->Ok_0) == builder_patterns(*b),
        builder_patterns(*b) == Seq::<(Seq<char>, bool)>::empty() ==> r is Ok,
{
    match b.build() {
        Ok(s) => Ok(s),
        Err(e) => Err(format!("{}", e)),
    }
}

/// Relies on globset::GlobSet::is_match: true if any glob in the set matches
/// the path given.
#[verifier::external_body]
fn globset_is_match(s: &globset::GlobSet, path: &str) -> (r: bool)
    ensures
        r == (exists|i: int|
            0 <= i < globset_patterns(*s).len() && glob_match(
                globset_patterns(*s)[i].0,
                globset_patterns(*s)[i].1,
                path@,
            )),
{
    s.is_match(path)
}

// ---------------------------------------------------------------------------
// Verified pattern-set interface.
// ---------------------------------------------------------------------------

/// Why compiling a list of patterns failed.
pub enum PatternError {
    /// One of the pattern strings is not a valid glob; it is carried here.
    InvalidGlob { pattern: String },
    /// Every pattern parsed, but assembling the combined matcher failed;
    /// the matcher's own error text is carried here.
    BuildFailed { message: String },
}

/// An immutable compiled set of glob patterns, shareable across workers.
pub struct PatternSet {
    set: globset::GlobSet,
}

impl PatternSet {
    /// The (pattern, case-insensitive) pairs this set was compiled from.
    pub closed spec fn pats(&self) -> Seq<(Seq<char>, bool)> {
        globset_patterns(self.set)
    }

    /// True iff `path` matches at least one pattern of the set.
    pub fn matches(&self, path: &str) -> (r: bool)
        ensures
            r == spec_set_matches(self.pats(), path@),
    {
        globset_is_match(&self.set, path)
    }
}

/// The pairs a list of pattern strings compiles to under one case option.
pub open spec fn spec_compiled(pats: Seq<Seq<char>>, case_insensitive: bool) -> Seq<(Seq<char>, bool)> {
    pats.map_values(|p: Seq<char>| (p, case_insensitive))
}

/// Every pattern of the list is a valid glob.
pub open spec fn spec_all_valid(pats: Seq<Seq<char>>, case_insensitive: bool) -> bool {
    forall|i: int| 0 <= i < pats.len() ==> glob_valid(pats[i], case_insensitive)
}

/// `p` is the first pattern of the list that is not a valid glob.
pub open spec fn spec_first_invalid(pats: Seq<Seq<char>>, case_insensitive: bool, p: Seq<char>) -> bool {
    exists|i: int|
        0 <= i < pats.len() && pats[i] == p && !glob_valid(p, case_insensitive)
            && (forall|j: int| 0 <= j < i ==> glob_valid(pats[j], case_insensitive))
}

/// Compile one pattern and add it to a builder under construction.
/// Fails, carrying the offending pattern, exactly when the pattern is not a
/// valid glob; the builder is then left unchanged.
pub fn add_pattern(builder: &mut globset::GlobSetBuilder, pattern: &str, case_insensitive: bool) -> (r: Result<
    (),
    PatternError,
>)
    ensures
        r is Ok <==> glob_valid(pattern@, case_insensitive),
        r is Ok ==> builder_patterns(*final(builder)) == builder_patterns(*old(builder)).push(
            (pattern@, case_insensitive),
        ),
        r is Err ==> builder_patterns(*final(builder)) == builder_patterns(*old(builder))
            && (r->Err_0 matches PatternError::InvalidGlob { pattern: p } ==> p@ == pattern@)
            && (r->Err_0 is InvalidGlob),
{
    if glob_compile_into(builder, pattern, case_insensitive) {
        Ok(())
    } else {
        Err(PatternError::InvalidGlob { pattern: pattern.to_owned() })
    }
}

/// Compile a list of pattern strings into one matcher.
///
/// Succeeds with a set holding exactly the given patterns when every pattern
/// is a valid glob and the matcher's assembly accepts them (always, when the
/// list is empty); fails with `InvalidGlob` carrying the first invalid
/// pattern when some pattern is not a valid glob, and with `BuildFailed`
/// exactly when every pattern is valid and the assembly fails.
pub fn build_globset(patterns: &Vec<String>, ignore_case: bool) -> (r: Result<PatternSet, PatternError>)
    ensures
        r is Ok ==> spec_all_valid(patterns.deep_view(), ignore_case) && r->Ok_0.pats()
            == spec_compiled(patterns.deep_view(), ignore_case),
        spec_all_valid(patterns.deep_view(), ignore_case) ==> (r is Ok <==> globset_build_ok(
            spec_compiled(patterns.deep_view(), ignore_case),
        )),
        !spec_all_valid(patterns.deep_view(), ignore_case) <==> (r is Err && (r->Err_0 matches
            PatternError::InvalidGlob { pattern: p } && spec_first_invalid(
            patterns.deep_view(),
            ignore_case,
            p@,
        ))),
        patterns@.len() == 0 ==> r is Ok,
{
    let ghost pviews: Seq<Seq<char>> = patterns.deep_view();
    let mut builder = globset_builder_new();
    proof {
        assert(spec_compiled(pviews.take(0), ignore_case) =~= Seq::<(Seq<char>, bool)>::empty());
    }
    let mut i: usize = 0;
    while i < patterns.len()
        invariant
            0 <= i <= patterns.len(),
            pviews == patterns.deep_view(),
            builder_patterns(builder) == spec_compiled(pviews.take(i as int), ignore_case),
            spec_all_valid(pviews.take(i as int), ignore_case),
        decreases patterns.len() - i,
    {
        let p: &String = &patterns[i];
        match add_pattern(&mut builder, p.as_str(), ignore_case) {
            Ok(()) => {
                proof {
                    assert(pviews.take(i + 1 as int) =~= pviews.take(i as int).push(pviews[i as int]));
                    assert(spec_compiled(pviews.take(i + 1 as int), ignore_case) =~= spec_compiled(
                        pviews.take(i as int),
                        ignore_case,
                    ).push((pviews[i as int], ignore_case)));
                }
            }
            Err(e) => {
                proof {
                    assert(pviews[i as int] == patterns@[i as int]@);
                    assert forall|j: int| 0 <= j < i implies glob_valid(pviews[j], ignore_case) by {
                        assert(pviews.take(i as int)[j] == pviews[j]);
                    }
                    assert(!spec_all_valid(pviews, ignore_case));
                    assert(spec_first_invalid(pviews, ignore_case, pviews[i as int]));
                }
                return Err(e);
            }
        }
        i = i + 1;
    }
    proof {
        assert(pviews.take(patterns.len() as int) =~= pviews);
    }
    match globset_builder_build(&builder) {
        Ok(set) => Ok(PatternSet { set }),
        Err(message) => Err(PatternError::BuildFailed { message }),
    }
}

// ---------------------------------------------------------------------------
// The copy decision.
// ---------------------------------------------------------------------------

/// The pure copy decision over compiled pattern sets: a path is selected when
/// it matches at least one include pattern and no exclude pattern.
pub open spec fn spec_should_copy(
    includes: Seq<(Seq<char>, bool)>,
    excludes: Seq<(Seq<char>, bool)>,
    path: Seq<char>,
) -> bool {
    spec_set_matches(includes, path) && !spec_set_matches(excludes, path)
}

/// Decide whether the file at `src` is to be copied: it must match the
/// include set and not match the exclude set. Pure; no filesystem access.
pub fn should_copy(src: &str, includes: &PatternSet, excludes: &PatternSet) -> (r: bool)
    ensures
        r == spec_should_copy(includes.pats(), excludes.pats(), src@),
{
    !excludes.matches(src) && includes.matches(src)
}

/// Excludes take precedence: a path matching both an include and an exclude
/// pattern is never selected for copying.
pub proof fn lemma_exclude_precedence(
    includes: Seq<(Seq<char>, bool)>,
    excludes: Seq<(Seq<char>, bool)>,
    path: Seq<char>,
)
    requires
        spec_set_matches(includes, path),
        spec_set_matches(excludes, path),
    ensures
        !spec_should_copy(includes, excludes, path),
{
}

/// An empty pattern set selects nothing: no path matches it.
pub proof fn lemma_empty_set_matches_nothing(path: Seq<char>)
    ensures
        !spec_set_matches(Seq::<(Seq<char>, bool)>::empty(), path),
{
}

} // verus!
