use vstd::prelude::*;
use vstd::string::StringSliceAdditionalSpecFns;
use vstd::utf8::encode_utf8;
use crate::fs_model::FsModel;
use crate::paths::{dest_path_bytes, spec_dest_path, spec_file_name};
use crate::patterns::{spec_should_copy, should_copy, PatternSet};

verus! {

/// Exit code of a run that copied everything it selected.
pub const EXIT_OK: i32 = 0;

/// Exit code when the source or destination directory check fails.
pub const EXIT_VALIDATION: i32 = 1;

/// Exit code when compiling the glob patterns fails.
pub const EXIT_GLOB: i32 = 2;

/// Exit code when some file operation (a copy after all retries, or
/// creating the destination) fails.
pub const EXIT_FILE_OPERATION: i32 = 3;

/// Total attempts the copier makes on one file before giving up.
pub const MAX_ATTEMPTS: usize = 3;

/// Milliseconds the copier waits between two attempts on one file.
pub const BACKOFF_MS: u64 = 100;

/// Copying one file failed even after all retry attempts: both paths and
/// the OS error text of the last attempt made.
pub struct CopyError {
    pub source: String,
    pub dest: String,
    pub message: String,
}

/// What processing one candidate file came to.
pub enum CopyOutcome {
    /// The file was copied.
    Copied,
    /// The destination already existed and overwriting is off; nothing was
    /// touched.
    Skipped,
    /// Every copy attempt failed.
    Failed(CopyError),
}

/// The retry loop ends in a successful copy exactly when one of the first
/// `MAX_ATTEMPTS` attempts succeeds; attempts past the first success are
/// never made. `results` lists the outcome each successive attempt would
/// have, an `Err` carrying that attempt's OS error text (entries past the
/// end stand for failing attempts whose text was lost).
pub open spec fn spec_retry_succeeds(results: Seq<Result<(), String>>) -> bool {
    exists|i: int| 0 <= i < MAX_ATTEMPTS && i < results.len() && results[i] is Ok
}

/// The OS error text the copier reports when every attempt fails: that of
/// the last attempt it makes, or nothing when the outcome list does not
/// reach that attempt.
pub open spec fn spec_last_error(results: Seq<Result<(), String>>) -> Seq<char> {
    if MAX_ATTEMPTS - 1 < results.len() && results[MAX_ATTEMPTS - 1] is Err {
        results[MAX_ATTEMPTS - 1]->Err_0@
    } else {
        Seq::<char>::empty()
    }
}

/// The retry policy, one failed attempt at a time: the failure count has
/// just grown to `err_cnt`, and the copier gives up once that count reaches
/// the attempt budget. Drives the retry loop of a caller that performs the
/// attempts itself.
pub fn give_up_after(err_cnt: usize) -> (r: bool)
    ensures
        r == (err_cnt >= MAX_ATTEMPTS),
{
    err_cnt >= MAX_ATTEMPTS
}

/// Copy one file with the bounded retry policy, with every effect of the
/// outside world passed in as a value: whether the destination already
/// exists, and the outcome each copy attempt would have. An existing
/// destination is skipped untouched when overwriting is off; otherwise the
/// outcome follows the retry policy, and exhaustion reports both paths and
/// the OS error text of the last attempt made.
pub fn copy_with_retry(
    src: &str,
    dest: &str,
    overwrite: bool,
    dest_exists: bool,
    attempt_results: &Vec<Result<(), String>>,
) -> (r: CopyOutcome)
    ensures
        !overwrite && dest_exists ==> r is Skipped,
        (overwrite || !dest_exists) && spec_retry_succeeds(attempt_results@) ==> r is Copied,
        (overwrite || !dest_exists) && !spec_retry_succeeds(attempt_results@) ==> (r matches
            CopyOutcome::Failed(e) && e.source@ == src@ && e.dest@ == dest@ && e.message@
            == spec_last_error(attempt_results@)),
{
    if !overwrite && dest_exists {
        return CopyOutcome::Skipped;
    }
    let mut attempt: usize = 0;
    while attempt < MAX_ATTEMPTS
        invariant
            0 <= attempt <= MAX_ATTEMPTS,
            overwrite || !dest_exists,
            forall|k: int| 0 <= k < attempt ==> !(k < attempt_results@.len()
                && attempt_results@[k] is Ok),
        decreases MAX_ATTEMPTS - attempt,
    {
        let succeeded = if attempt < attempt_results.len() {
            attempt_results[attempt].is_ok()
        } else {
            false
        };
        if succeeded {
            return CopyOutcome::Copied;
        }
        attempt = attempt + 1;
    }
    let message = if MAX_ATTEMPTS - 1 < attempt_results.len() {
        match &attempt_results[MAX_ATTEMPTS - 1] {
            Err(m) => m.clone(),
            Ok(_) => String::new(),
        }
    } else {
        String::new()
    };
    CopyOutcome::Failed(CopyError { source: src.to_owned(), dest: dest.to_owned(), message })
}

/// Process one candidate file: decide by the pattern sets, and copy with the
/// bounded retry policy when the file is selected. Every effect of the
/// outside world is passed in as a value: whether the destination already
/// exists, and the outcome each copy attempt would have. Returns `Ok(true)`
/// when the file was selected and a copy attempt succeeded, `Ok(false)` when
/// the file was not selected or was skipped to protect an existing
/// destination, and the copy error, naming both paths, when every attempt
/// failed.
pub fn match_copy(
    src: &str,
    dest: &str,
    includes: &PatternSet,
    excludes: &PatternSet,
    overwrite: bool,
    dest_exists: bool,
    attempt_results: &Vec<Result<(), String>>,
) -> (r: Result<bool, CopyError>)
    ensures
        !spec_should_copy(includes.pats(), excludes.pats(), src@) ==> (r matches Ok(b) && b
            == false),
        spec_should_copy(includes.pats(), excludes.pats(), src@) && !overwrite && dest_exists
            ==> (r matches Ok(b) && b == false),
        spec_should_copy(includes.pats(), excludes.pats(), src@) && (overwrite || !dest_exists)
            && spec_retry_succeeds(attempt_results@) ==> (r matches Ok(b) && b == true),
        spec_should_copy(includes.pats(), excludes.pats(), src@) && (overwrite || !dest_exists)
            && !spec_retry_succeeds(attempt_results@) ==> (r matches Err(e) && e.source@ == src@
            && e.dest@ == dest@ && e.message@ == spec_last_error(attempt_results@)),
{
    if !should_copy(src, includes, excludes) {
        return Ok(false);
    }
    match copy_with_retry(src, dest, overwrite, dest_exists, attempt_results) {
        CopyOutcome::Copied => Ok(true),
        CopyOutcome::Skipped => Ok(false),
        CopyOutcome::Failed(e) => Err(e),
    }
}

/// Aggregate the outcomes the workers reported (true for a successful or
/// skipped task, false for a copy that failed after all retries) into the
/// process's one exit code: the run succeeds exactly when no task failed.
pub fn aggregate_exit_code(outcomes: &Vec<bool>) -> (r: i32)
    ensures
        (r == EXIT_OK) <==> (forall|i: int| 0 <= i < outcomes@.len() ==> outcomes@[i]),
        r == EXIT_OK || r == EXIT_FILE_OPERATION,
{
    let mut i: usize = 0;
    while i < outcomes.len()
        invariant
            0 <= i <= outcomes@.len(),
            forall|k: int| 0 <= k < i ==> outcomes@[k],
        decreases outcomes@.len() - i,
    {
        if !outcomes[i] {
            return EXIT_FILE_OPERATION;
        }
        i = i + 1;
    }
    EXIT_OK
}

/// Retry exhaustion: with a copy primitive that fails deterministically `n`
/// times and then succeeds, the copier ends in a successful copy exactly
/// when `n` is below the attempt budget.
pub proof fn lemma_retry_exhaustion(results: Seq<Result<(), String>>, n: int)
    requires
        0 <= n,
        results.len() == n + 1,
        forall|i: int| 0 <= i < n ==> results[i] is Err,
        results[n] is Ok,
    ensures
        spec_retry_succeeds(results) <==> n < MAX_ATTEMPTS,
{
    if n < MAX_ATTEMPTS {
        assert(results[n] is Ok);
    }
}

// ---------------------------------------------------------------------------
// A sequential model of one whole run, used to state what holds of the
// batch as a whole. The filesystem is a map from destination path bytes to
// the source path whose content was written there last; each candidate is
// the source path of one regular file offered by the walker.
// ---------------------------------------------------------------------------

/// Whether processing `src` against the filesystem `fs` writes its
/// destination: the path must be selected by the pattern sets, and an
/// existing destination blocks the write when overwriting is off.
pub open spec fn spec_does_copy(
    fs: Map<Seq<u8>, Seq<char>>,
    includes: Seq<(Seq<char>, bool)>,
    excludes: Seq<(Seq<char>, bool)>,
    no_overwrite: bool,
    dest_dir: Seq<u8>,
    src: Seq<char>,
) -> bool {
    spec_should_copy(includes, excludes, src) && !(no_overwrite && fs.contains_key(
        spec_dest_path(dest_dir, encode_utf8(src)),
    ))
}

/// The filesystem after processing one candidate.
pub open spec fn spec_step(
    fs: Map<Seq<u8>, Seq<char>>,
    includes: Seq<(Seq<char>, bool)>,
    excludes: Seq<(Seq<char>, bool)>,
    no_overwrite: bool,
    dest_dir: Seq<u8>,
    src: Seq<char>,
) -> Map<Seq<u8>, Seq<char>> {
    if spec_does_copy(fs, includes, excludes, no_overwrite, dest_dir, src) {
        fs.insert(spec_dest_path(dest_dir, encode_utf8(src)), src)
    } else {
        fs
    }
}

/// The filesystem after processing a whole list of candidates in order.
pub open spec fn spec_run(
    fs: Map<Seq<u8>, Seq<char>>,
    includes: Seq<(Seq<char>, bool)>,
    excludes: Seq<(Seq<char>, bool)>,
    no_overwrite: bool,
    dest_dir: Seq<u8>,
    cands: Seq<Seq<char>>,
) -> Map<Seq<u8>, Seq<char>>
    decreases cands.len(),
{
    if cands.len() == 0 {
        fs
    } else {
        spec_run(
            spec_step(fs, includes, excludes, no_overwrite, dest_dir, cands.first()),
            includes,
            excludes,
            no_overwrite,
            dest_dir,
            cands.drop_first(),
        )
    }
}

/// How many copies a run performs (how many candidates actually write).
pub open spec fn spec_run_copies(
    fs: Map<Seq<u8>, Seq<char>>,
    includes: Seq<(Seq<char>, bool)>,
    excludes: Seq<(Seq<char>, bool)>,
    no_overwrite: bool,
    dest_dir: Seq<u8>,
    cands: Seq<Seq<char>>,
) -> nat
    decreases cands.len(),
{
    if cands.len() == 0 {
        0
    } else {
        (if spec_does_copy(fs, includes, excludes, no_overwrite, dest_dir, cands.first()) {
            1 as nat
        } else {
            0 as nat
        }) + spec_run_copies(
            spec_step(fs, includes, excludes, no_overwrite, dest_dir, cands.first()),
            includes,
            excludes,
            no_overwrite,
            dest_dir,
            cands.drop_first(),
        )
    }
}

proof fn lemma_run_preserves_key(
    fs: Map<Seq<u8>, Seq<char>>,
    includes: Seq<(Seq<char>, bool)>,
    excludes: Seq<(Seq<char>, bool)>,
    no_overwrite: bool,
    dest_dir: Seq<u8>,
    cands: Seq<Seq<char>>,
    k: Seq<u8>,
)
    requires
        fs.contains_key(k),
    ensures
        spec_run(fs, includes, excludes, no_overwrite, dest_dir, cands).contains_key(k),
    decreases cands.len(),
{
    if cands.len() > 0 {
        lemma_run_preserves_key(
            spec_step(fs, includes, excludes, no_overwrite, dest_dir, cands.first()),
            includes,
            excludes,
            no_overwrite,
            dest_dir,
            cands.drop_first(),
            k,
        );
    }
}

proof fn lemma_run_covers_one(
    fs: Map<Seq<u8>, Seq<char>>,
    includes: Seq<(Seq<char>, bool)>,
    excludes: Seq<(Seq<char>, bool)>,
    no_overwrite: bool,
    dest_dir: Seq<u8>,
    cands: Seq<Seq<char>>,
    i: int,
)
    requires
        0 <= i < cands.len(),
        spec_should_copy(includes, excludes, cands[i]),
    ensures
        spec_run(fs, includes, excludes, no_overwrite, dest_dir, cands).contains_key(
            spec_dest_path(dest_dir, encode_utf8(cands[i])),
        ),
    decreases cands.len(),
{
    let fs1 = spec_step(fs, includes, excludes, no_overwrite, dest_dir, cands.first());
    if i == 0 {
        assert(fs1.contains_key(spec_dest_path(dest_dir, encode_utf8(cands[0]))));
        lemma_run_preserves_key(
            fs1,
            includes,
            excludes,
            no_overwrite,
            dest_dir,
            cands.drop_first(),
            spec_dest_path(dest_dir, encode_utf8(cands[0])),
        );
    } else {
        assert(cands.drop_first()[i - 1] == cands[i]);
        lemma_run_covers_one(
            fs1,
            includes,
            excludes,
            no_overwrite,
            dest_dir,
            cands.drop_first(),
            i - 1,
        );
    }
}

proof fn lemma_run_noop(
    fs: Map<Seq<u8>, Seq<char>>,
    includes: Seq<(Seq<char>, bool)>,
    excludes: Seq<(Seq<char>, bool)>,
    dest_dir: Seq<u8>,
    cands: Seq<Seq<char>>,
)
    requires
        forall|i: int|
            0 <= i < cands.len() && spec_should_copy(includes, excludes, cands[i])
                ==> fs.contains_key(spec_dest_path(dest_dir, encode_utf8(cands[i]))),
    ensures
        spec_run(fs, includes, excludes, true, dest_dir, cands) == fs,
        spec_run_copies(fs, includes, excludes, true, dest_dir, cands) == 0,
    decreases cands.len(),
{
    if cands.len() > 0 {
        assert(!spec_does_copy(fs, includes, excludes, true, dest_dir, cands[0]));
        assert(spec_step(fs, includes, excludes, true, dest_dir, cands.first()) == fs);
        assert forall|i: int|
            0 <= i < cands.drop_first().len() && spec_should_copy(
                includes,
                excludes,
                cands.drop_first()[i],
            ) implies fs.contains_key(
            spec_dest_path(dest_dir, encode_utf8(cands.drop_first()[i])),
        ) by {
            assert(cands.drop_first()[i] == cands[i + 1]);
        }
        lemma_run_noop(fs, includes, excludes, dest_dir, cands.drop_first());
    }
}

proof fn lemma_run_push(
    fs: Map<Seq<u8>, Seq<char>>,
    includes: Seq<(Seq<char>, bool)>,
    excludes: Seq<(Seq<char>, bool)>,
    no_overwrite: bool,
    dest_dir: Seq<u8>,
    cands: Seq<Seq<char>>,
    c: Seq<char>,
)
    ensures
        spec_run(fs, includes, excludes, no_overwrite, dest_dir, cands.push(c)) == spec_step(
            spec_run(fs, includes, excludes, no_overwrite, dest_dir, cands),
            includes,
            excludes,
            no_overwrite,
            dest_dir,
            c,
        ),
        spec_run_copies(fs, includes, excludes, no_overwrite, dest_dir, cands.push(c))
            == spec_run_copies(fs, includes, excludes, no_overwrite, dest_dir, cands) + (
        if spec_does_copy(
            spec_run(fs, includes, excludes, no_overwrite, dest_dir, cands),
            includes,
            excludes,
            no_overwrite,
            dest_dir,
            c,
        ) {
            1 as nat
        } else {
            0 as nat
        }),
    decreases cands.len(),
{
    if cands.len() == 0 {
        let fs1 = spec_step(fs, includes, excludes, no_overwrite, dest_dir, c);
        assert(cands.push(c).first() == c);
        assert(cands.push(c).drop_first() =~= Seq::<Seq<char>>::empty());
        assert(spec_run(fs, includes, excludes, no_overwrite, dest_dir, cands.push(c))
            == spec_run(
            fs1,
            includes,
            excludes,
            no_overwrite,
            dest_dir,
            Seq::<Seq<char>>::empty(),
        ));
        assert(spec_run(fs1, includes, excludes, no_overwrite, dest_dir, Seq::<Seq<char>>::empty())
            == fs1);
        assert(spec_run(fs, includes, excludes, no_overwrite, dest_dir, cands) == fs);
        assert(spec_run_copies(fs, includes, excludes, no_overwrite, dest_dir, cands) == 0);
        assert(spec_run_copies(
            fs1,
            includes,
            excludes,
            no_overwrite,
            dest_dir,
            Seq::<Seq<char>>::empty(),
        ) == 0);
    } else {
        let fs1 = spec_step(fs, includes, excludes, no_overwrite, dest_dir, cands.first());
        assert(cands.push(c).first() == cands.first());
        assert(cands.push(c).drop_first() =~= cands.drop_first().push(c));
        assert(spec_run(fs, includes, excludes, no_overwrite, dest_dir, cands.push(c))
            == spec_run(fs1, includes, excludes, no_overwrite, dest_dir, cands.drop_first().push(c)));
        assert(spec_run(fs, includes, excludes, no_overwrite, dest_dir, cands) == spec_run(
            fs1,
            includes,
            excludes,
            no_overwrite,
            dest_dir,
            cands.drop_first(),
        ));
        lemma_run_push(fs1, includes, excludes, no_overwrite, dest_dir, cands.drop_first(), c);
    }
}

/// Run a whole batch of candidate source paths in order against a
/// remembered destination state: decide each candidate by the pattern sets,
/// skip it when overwriting is off and its destination is already present,
/// and write its flattened destination otherwise. Returns how many
/// candidates were copied; the state afterwards and the count are exactly
/// those of the run model.
pub fn run_batch(
    candidates: &Vec<String>,
    includes: &PatternSet,
    excludes: &PatternSet,
    no_overwrite: bool,
    dest_dir: &str,
    fs: &mut FsModel,
) -> (copies: usize)
    ensures
        final(fs)@ == spec_run(
            old(fs)@,
            includes.pats(),
            excludes.pats(),
            no_overwrite,
            dest_dir.spec_bytes(),
            candidates.deep_view(),
        ),
        copies == spec_run_copies(
            old(fs)@,
            includes.pats(),
            excludes.pats(),
            no_overwrite,
            dest_dir.spec_bytes(),
            candidates.deep_view(),
        ),
{
    let ghost fs0 = fs@;
    let ghost cviews = candidates.deep_view();
    let ghost inc = includes.pats();
    let ghost exc = excludes.pats();
    let ghost dd = dest_dir.spec_bytes();
    proof {
        assert(cviews.take(0) =~= Seq::<Seq<char>>::empty());
    }
    let mut copies: usize = 0;
    let mut i: usize = 0;
    while i < candidates.len()
        invariant
            0 <= i <= candidates@.len(),
            cviews == candidates.deep_view(),
            cviews.len() == candidates@.len(),
            inc == includes.pats(),
            exc == excludes.pats(),
            dd == dest_dir.spec_bytes(),
            fs@ == spec_run(fs0, inc, exc, no_overwrite, dd, cviews.take(i as int)),
            copies == spec_run_copies(fs0, inc, exc, no_overwrite, dd, cviews.take(i as int)),
            copies <= i,
        decreases candidates@.len() - i,
    {
        let cand: &String = &candidates[i];
        proof {
            assert(cviews[i as int] == candidates@[i as int]@);
        }
        let dest = dest_path_bytes(dest_dir, cand.as_str());
        let selected = should_copy(cand.as_str(), includes, excludes);
        let blocked = no_overwrite && fs.contains(&dest);
        if selected && !blocked {
            fs.write(dest, cand.clone());
            copies = copies + 1;
        }
        proof {
            lemma_run_push(fs0, inc, exc, no_overwrite, dd, cviews.take(i as int), cviews[i as int]);
            assert(cviews.take(i + 1 as int) =~= cviews.take(i as int).push(cviews[i as int]));
        }
        i = i + 1;
    }
    proof {
        assert(cviews.take(candidates@.len() as int) =~= cviews);
    }
    copies
}

/// No-overwrite idempotence: once a run with overwriting off has finished,
/// running the same candidates again against the resulting filesystem
/// performs zero copies and leaves the filesystem exactly as it was.
pub proof fn lemma_no_overwrite_idempotent(
    fs: Map<Seq<u8>, Seq<char>>,
    includes: Seq<(Seq<char>, bool)>,
    excludes: Seq<(Seq<char>, bool)>,
    dest_dir: Seq<u8>,
    cands: Seq<Seq<char>>,
)
    ensures
        spec_run_copies(
            spec_run(fs, includes, excludes, true, dest_dir, cands),
            includes,
            excludes,
            true,
            dest_dir,
            cands,
        ) == 0,
        spec_run(
            spec_run(fs, includes, excludes, true, dest_dir, cands),
            includes,
            excludes,
            true,
            dest_dir,
            cands,
        ) == spec_run(fs, includes, excludes, true, dest_dir, cands),
{
    let fs1 = spec_run(fs, includes, excludes, true, dest_dir, cands);
    assert forall|i: int|
        0 <= i < cands.len() && spec_should_copy(includes, excludes, cands[i]) implies fs1
        .contains_key(spec_dest_path(dest_dir, encode_utf8(cands[i]))) by {
        lemma_run_covers_one(fs, includes, excludes, true, dest_dir, cands, i);
    }
    lemma_run_noop(fs1, includes, excludes, dest_dir, cands);
}

/// Flattening collision, settled as last writer wins: two selected source
/// files with the same base name write the same destination path, and after
/// both have copied (with overwriting on) the destination holds the content
/// of the one processed last.
pub proof fn lemma_last_writer_wins(
    fs: Map<Seq<u8>, Seq<char>>,
    includes: Seq<(Seq<char>, bool)>,
    excludes: Seq<(Seq<char>, bool)>,
    dest_dir: Seq<u8>,
    src1: Seq<char>,
    src2: Seq<char>,
)
    requires
        spec_should_copy(includes, excludes, src1),
        spec_should_copy(includes, excludes, src2),
        spec_file_name(encode_utf8(src1)) == spec_file_name(encode_utf8(src2)),
    ensures
        spec_dest_path(dest_dir, encode_utf8(src1)) == spec_dest_path(
            dest_dir,
            encode_utf8(src2),
        ),
        ({
            let d = spec_dest_path(dest_dir, encode_utf8(src2));
            let fs2 = spec_run(fs, includes, excludes, false, dest_dir, seq![src1, src2]);
            fs2.contains_key(d) && fs2[d] == src2
        }),
{
    crate::paths::lemma_flatten_collision(dest_dir, encode_utf8(src1), encode_utf8(src2));
    let cands = seq![src1, src2];
    let tail = seq![src2];
    let fsa = spec_step(fs, includes, excludes, false, dest_dir, src1);
    let fsb = spec_step(fsa, includes, excludes, false, dest_dir, src2);
    assert(cands.first() == src1);
    assert(cands.drop_first() =~= tail);
    assert(spec_run(fs, includes, excludes, false, dest_dir, cands) == spec_run(
        fsa,
        includes,
        excludes,
        false,
        dest_dir,
        tail,
    ));
    assert(tail.first() == src2);
    assert(tail.drop_first() =~= Seq::<Seq<char>>::empty());
    assert(spec_run(fsa, includes, excludes, false, dest_dir, tail) == spec_run(
        fsb,
        includes,
        excludes,
        false,
        dest_dir,
        Seq::<Seq<char>>::empty(),
    ));
    assert(spec_run(fsb, includes, excludes, false, dest_dir, Seq::<Seq<char>>::empty()) == fsb);
}

/// The shape of one whole run, for any three candidates offered in order of
/// which the first and third are selected and share a base name while the
/// second is not selected and targets a different destination: with
/// overwriting on, the shared destination is written and ends with the
/// content of the candidate processed last, the unselected candidate's
/// destination is never touched, and exactly two copies are performed.
pub proof fn lemma_run_scenario(
    fs: Map<Seq<u8>, Seq<char>>,
    includes: Seq<(Seq<char>, bool)>,
    excludes: Seq<(Seq<char>, bool)>,
    dest_dir: Seq<u8>,
    a: Seq<char>,
    b: Seq<char>,
    c: Seq<char>,
)
    requires
        spec_should_copy(includes, excludes, a),
        !spec_should_copy(includes, excludes, b),
        spec_should_copy(includes, excludes, c),
        spec_file_name(encode_utf8(a)) == spec_file_name(encode_utf8(c)),
        spec_dest_path(dest_dir, encode_utf8(b)) != spec_dest_path(dest_dir, encode_utf8(a)),
        !fs.contains_key(spec_dest_path(dest_dir, encode_utf8(b))),
    ensures
        ({
            let after = spec_run(fs, includes, excludes, false, dest_dir, seq![a, b, c]);
            let d = spec_dest_path(dest_dir, encode_utf8(c));
            &&& after.contains_key(d)
            &&& after[d] == c
            &&& !after.contains_key(spec_dest_path(dest_dir, encode_utf8(b)))
        }),
        spec_run_copies(fs, includes, excludes, false, dest_dir, seq![a, b, c]) == 2,
{
    crate::paths::lemma_flatten_collision(dest_dir, encode_utf8(a), encode_utf8(c));
    let cands = seq![a, b, c];
    let t1 = seq![b, c];
    let t2 = seq![c];
    let fs1 = spec_step(fs, includes, excludes, false, dest_dir, a);
    let fs2 = spec_step(fs1, includes, excludes, false, dest_dir, b);
    let fs3 = spec_step(fs2, includes, excludes, false, dest_dir, c);
    assert(cands.first() == a);
    assert(cands.drop_first() =~= t1);
    assert(spec_run(fs, includes, excludes, false, dest_dir, cands) == spec_run(
        fs1,
        includes,
        excludes,
        false,
        dest_dir,
        t1,
    ));
    assert(spec_run_copies(fs, includes, excludes, false, dest_dir, cands) == 1
        + spec_run_copies(fs1, includes, excludes, false, dest_dir, t1));
    assert(t1.first() == b);
    assert(t1.drop_first() =~= t2);
    assert(fs2 == fs1);
    assert(spec_run(fs1, includes, excludes, false, dest_dir, t1) == spec_run(
        fs2,
        includes,
        excludes,
        false,
        dest_dir,
        t2,
    ));
    assert(spec_run_copies(fs1, includes, excludes, false, dest_dir, t1) == spec_run_copies(
        fs2,
        includes,
        excludes,
        false,
        dest_dir,
        t2,
    ));
    assert(t2.first() == c);
    assert(t2.drop_first() =~= Seq::<Seq<char>>::empty());
    assert(spec_run(fs2, includes, excludes, false, dest_dir, t2) == spec_run(
        fs3,
        includes,
        excludes,
        false,
        dest_dir,
        Seq::<Seq<char>>::empty(),
    ));
    assert(spec_run(fs3, includes, excludes, false, dest_dir, Seq::<Seq<char>>::empty()) == fs3);
    assert(spec_run_copies(fs2, includes, excludes, false, dest_dir, t2) == 1
        + spec_run_copies(fs3, includes, excludes, false, dest_dir, Seq::<Seq<char>>::empty()));
}

} // verus!
