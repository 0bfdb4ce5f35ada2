//! The upload orchestrator: the engine's top-level decision logic.
//!
//! The orchestrator reads a stream through the [`Chunker`], decides between
//! a single-shot PUT and a multipart session, dispatches part uploads
//! through the [`AdmissionGate`] with numbers from the [`PartCounter`], and
//! drives the session to a terminal state: Complete with the results
//! ordered by part number, or Abort on the first failure.
//!
//! [`run_upload`] interprets those decisions over plain data: the stream
//! arrives as the sequence of reads it produced, and every storage-backend
//! outcome arrives as a value in a [`BackendScript`]. An unverified driver
//! makes the same decisions against the live backend by performing each
//! recorded call as it is decided; everything the engine decides from the
//! outcomes is verified here.

use vstd::prelude::*;
use crate::ETag;
use crate::chunker::Chunker;
use crate::chunker::lemma_split_parts_conserves;
use crate::chunker::lemma_split_parts_empty_iff_small;
use crate::chunker::lemma_split_parts_snoc;
use crate::chunker::lemma_total_len_nonneg;
use crate::chunker::split_parts;
use crate::chunker::total_len;
use crate::config::DEFAULT_DATA_PART_SIZE;
use crate::config::EngineConfig;
use crate::config::MIN_DATA_PART_SIZE;
use crate::config::UploadObjectAdditionalOptions;
use crate::config::clamped;
use crate::counter::PartCounter;
use crate::error::Error;
use crate::gate::AdmissionGate;
use crate::parts::contiguous_from_one;
use crate::parts::lemma_sort_of_permutation_is_contiguous;
use crate::parts::sort_by_part_number;
use crate::parts::sorted_by_part_number;

verus! {

/// How one dispatched part-upload task ended: the backend returned an
/// integrity tag, the network call failed, or the task itself could not be
/// joined.
pub enum PartFate {
    Uploaded(String),
    Failed(Error),
    JoinLost,
}

/// The error a failed part-upload task surfaces.
pub open spec fn fate_error(fate: PartFate) -> Error {
    match fate {
        PartFate::Uploaded(_) => Error::JoinError,
        PartFate::Failed(e) => e,
        PartFate::JoinLost => Error::JoinError,
    }
}

/// One joined part-upload task: the number it ran under and how it ended.
pub struct PartOutcome {
    pub part_number: usize,
    pub fate: PartFate,
}

/// The fates of a sequence of outcomes, in join order.
pub open spec fn fates_of(outcomes: Seq<PartOutcome>) -> Seq<PartFate> {
    outcomes.map_values(|o: PartOutcome| o.fate)
}

/// The index of the first fate among the first `n` that is not
/// `Uploaded`, or `n` when all of them are.
pub open spec fn first_bad(fates: Seq<PartFate>, n: int) -> int
    decreases n,
{
    if n <= 0 {
        0
    } else if first_bad(fates, n - 1) < n - 1 {
        first_bad(fates, n - 1)
    } else if fates[n - 1] is Uploaded {
        n
    } else {
        n - 1
    }
}

/// `first_bad` points at the first non-`Uploaded` fate: everything before
/// it is `Uploaded`, and it is `n` exactly when all `n` fates are.
pub proof fn lemma_first_bad_ensures(fates: Seq<PartFate>, n: int)
    requires
        0 <= n,
    ensures
        0 <= first_bad(fates, n) <= n,
        forall|k: int| 0 <= k < first_bad(fates, n) ==> fates[k] is Uploaded,
        first_bad(fates, n) < n ==> !(fates[first_bad(fates, n)] is Uploaded),
    decreases n,
{
    if n > 0 {
        lemma_first_bad_ensures(fates, n - 1);
    }
}

/// The ETags that successfully joined outcomes carry: for each outcome,
/// its integrity tag under its part number.
pub open spec fn assigned_etags(outcomes: Seq<PartOutcome>) -> Seq<ETag> {
    Seq::new(
        outcomes.len(),
        |k: int| ETag {
            e_tag: outcomes[k].fate->Uploaded_0,
            part_number: outcomes[k].part_number,
        },
    )
}

/// Drains the joined part-upload outcomes in join order. When every task
/// uploaded its part, returns the integrity tags under their part numbers,
/// in join order. Otherwise returns the first failure encountered; the
/// remaining outcomes are still consumed, but discarded.
pub fn collect_results(outcomes: Vec<PartOutcome>) -> (r: Result<Vec<ETag>, Error>)
    ensures
        ({
            let fates = fates_of(outcomes@);
            let n = outcomes@.len() as int;
            let bad = first_bad(fates, n);
            &&& (bad == n ==> (r matches Ok(tags) && tags@ =~= assigned_etags(outcomes@)))
            &&& (bad < n ==> (r matches Err(e) && e == fate_error(fates[bad])))
        }),
{
    let ghost orig = outcomes@;
    let mut remaining = outcomes;
    let mut e_tags: Vec<ETag> = Vec::new();
    let mut first_err: Option<Error> = None;
    let ghost mut i: int = 0;
    proof {
        lemma_first_bad_ensures(fates_of(orig), orig.len() as int);
    }
    while remaining.len() > 0
        invariant
            0 <= i && i + remaining@.len() == orig.len(),
            remaining@ =~= orig.skip(i),
            first_err is None <==> first_bad(fates_of(orig), i) == i,
            first_err matches Some(e) ==> {
                let bad = first_bad(fates_of(orig), i);
                &&& bad < i
                &&& bad == first_bad(fates_of(orig), orig.len() as int)
                &&& e == fate_error(fates_of(orig)[bad])
            },
            first_err is None ==> e_tags@ =~= assigned_etags(orig.take(i)),
        decreases remaining@.len(),
    {
        let ghost prev_remaining = remaining@;
        let o = remaining.remove(0);
        proof {
            assert(o == orig[i]);
            assert(remaining@ =~= orig.skip(i + 1));
            assert(fates_of(orig)[i] == o.fate);
            lemma_first_bad_step(fates_of(orig), i, orig.len() as int);
        }
        let part_number = o.part_number;
        match o.fate {
            PartFate::Uploaded(tag) => {
                if first_err.is_none() {
                    e_tags.push(ETag { e_tag: tag, part_number });
                    proof {
                        assert(e_tags@ =~= assigned_etags(orig.take(i + 1))) by {
                            assert(forall|k: int|
                                0 <= k < i ==> orig.take(i + 1)[k] == orig.take(i)[k]);
                            assert(orig.take(i + 1)[i] == orig[i]);
                        }
                    }
                }
            },
            PartFate::Failed(e) => {
                if first_err.is_none() {
                    first_err = Some(e);
                }
            },
            PartFate::JoinLost => {
                if first_err.is_none() {
                    first_err = Some(Error::JoinError);
                }
            },
        }
        proof {
            i = i + 1;
        }
    }
    proof {
        assert(orig.take(orig.len() as int) =~= orig);
    }
    match first_err {
        None => Ok(e_tags),
        Some(e) => Err(e),
    }
}

/// Once a bad fate is found, later prefixes keep pointing at it; until
/// then, the next prefix either extends the all-good run or stops at `i`.
proof fn lemma_first_bad_step(fates: Seq<PartFate>, i: int, n: int)
    requires
        0 <= i < n,
    ensures
        first_bad(fates, i) == i && fates[i] is Uploaded ==> first_bad(fates, i + 1) == i + 1,
        first_bad(fates, i) == i && !(fates[i] is Uploaded) ==> first_bad(fates, i + 1) == i
            && first_bad(fates, n) == i,
        first_bad(fates, i) < i ==> first_bad(fates, i + 1) == first_bad(fates, i),
        first_bad(fates, i) <= i,
{
    lemma_first_bad_ensures(fates, i);
    if first_bad(fates, i) == i && !(fates[i] is Uploaded) {
        lemma_first_bad_stable(fates, i + 1, n);
    }
}

/// A prefix that already stops early keeps the same stopping point in
/// every longer prefix.
proof fn lemma_first_bad_stable(fates: Seq<PartFate>, m: int, n: int)
    requires
        1 <= m <= n,
        first_bad(fates, m) < m,
    ensures
        first_bad(fates, n) == first_bad(fates, m),
    decreases n,
{
    if n > m {
        lemma_first_bad_stable(fates, m, n - 1);
    }
}

/// `first_bad` reads only the first `n` fates.
proof fn lemma_first_bad_prefix(a: Seq<PartFate>, b: Seq<PartFate>, n: int)
    requires
        0 <= n,
        forall|k: int| 0 <= k < n ==> a[k] == b[k],
    ensures
        first_bad(a, n) == first_bad(b, n),
    decreases n,
{
    if n > 0 {
        lemma_first_bad_prefix(a, b, n - 1);
    }
}

/// The byte contents of each read.
pub open spec fn read_views(reads: Seq<Vec<u8>>) -> Seq<Seq<u8>> {
    reads.map_values(|v: Vec<u8>| v@)
}

/// The part-size threshold the given options put into effect.
pub open spec fn effective_part_size(options: UploadObjectAdditionalOptions) -> int {
    clamped(options.data_part_size, DEFAULT_DATA_PART_SIZE, MIN_DATA_PART_SIZE) as int
}

/// The full parts the stream produces by crossing the threshold.
pub open spec fn stream_parts(views: Seq<Seq<u8>>, threshold: int) -> Seq<Seq<u8>> {
    split_parts(views, threshold, Seq::<u8>::empty()).0
}

/// The bytes still accumulated when the stream ends.
pub open spec fn stream_remainder(views: Seq<Seq<u8>>, threshold: int) -> Seq<u8> {
    split_parts(views, threshold, Seq::<u8>::empty()).1
}

/// The ordered results a Complete call must receive when `n` parts joined
/// with the given fates: for each part number `k + 1`, its integrity tag.
pub open spec fn expected_etags(fates: Seq<PartFate>, n: int) -> Seq<ETag> {
    Seq::new(
        n as nat,
        |k: int| ETag { e_tag: fates[k]->Uploaded_0, part_number: (k + 1) as usize },
    )
}

/// One UploadPart call the engine made: the number the part ran under and
/// the bytes it carried.
pub struct PartCall {
    pub part_number: usize,
    pub bytes: Vec<u8>,
}

/// Everything the engine asked of the storage collaborator during one run:
/// how many single-shot PUTs and session creations it made, every
/// UploadPart call with its number and bytes, the ordered results it handed
/// to Complete (if it completed), and how often it called Abort. A failed
/// Abort is reported here and never masks the primary error.
pub struct UploadTrace {
    pub put_calls: usize,
    pub put_body: Option<Vec<u8>>,
    pub sessions_started: usize,
    pub part_calls: Vec<PartCall>,
    pub completed: Option<Vec<ETag>>,
    pub abort_calls: usize,
    pub abort_failure: Option<Error>,
}

/// The outcomes the stream and the storage collaborator produce during one
/// run, as plain data: what the stream delivered after the last read
/// (`None` is a clean end of stream), and the result of each call the
/// engine may decide to make. Part fates are consumed in part-number
/// order, one per dispatched part, so at least one more fate than reads
/// must be supplied.
pub struct BackendScript {
    pub read_error: Option<Error>,
    pub put_result: Result<(), Error>,
    pub start_result: Result<String, Error>,
    pub part_fates: Vec<PartFate>,
    pub complete_result: Result<(), Error>,
    pub abort_result: Result<(), Error>,
}

/// Drives one whole upload: reads arrive as the chunks the stream
/// delivered, every collaborator outcome arrives in `script`, and the
/// returned trace records every call the engine decided to make, together
/// with the outcome the caller sees.
///
/// The engine accumulates reads until the effective part-size threshold is
/// reached, lazily starts the multipart session at the first crossing,
/// dispatches each full part and the final remainder as numbered part
/// uploads (each under one admission-gate permit), and finalizes: if every
/// part joined with a tag, Complete receives the results sorted by part
/// number; on a read error or any failed part, Abort is called exactly
/// once and the first failure is returned. A stream that ends below the
/// threshold is sent as one single-shot PUT and no session is ever
/// created.
pub fn run_upload(
    options: &UploadObjectAdditionalOptions,
    reads: &Vec<Vec<u8>>,
    script: BackendScript,
) -> (r: (UploadTrace, Result<usize, Error>))
    requires
        total_len(read_views(reads@)) <= usize::MAX,
        reads@.len() + 2 <= usize::MAX,
        script.part_fates@.len() >= reads@.len() + 1,
    ensures
        ({
            let views = read_views(reads@);
            let t = effective_part_size(*options);
            let total = total_len(views);
            let full = stream_parts(views, t);
            let n_parts = full.len() as int + 1;
            let fates = script.part_fates@;
            let bad = first_bad(fates, n_parts);
            let trace = r.0;
            let outcome = r.1;
            // Abort is best-effort: a failed Abort is reported in the
            // trace and never replaces the primary error.
            &&& trace.abort_calls <= 1
            &&& (trace.abort_calls == 0 ==> trace.abort_failure is None)
            &&& (trace.abort_calls == 1 ==> trace.abort_failure == (match script.abort_result {
                Ok(u) => None::<Error>,
                Err(ae) => Some(ae),
            }))
            &&& (trace.put_body is Some <==> trace.put_calls == 1)
            // Single-shot path: a stream that stays below the threshold is
            // sent as exactly one PUT carrying the whole stream; no
            // session is ever created and no part is ever uploaded.
            &&& (script.read_error is None && total < t ==> {
                &&& trace.put_calls == 1
                &&& trace.put_body matches Some(body) && body@ == views.flatten()
                &&& trace.sessions_started == 0 && trace.part_calls@.len() == 0
                &&& trace.completed is None && trace.abort_calls == 0
                &&& (script.put_result is Ok ==> (outcome matches Ok(b) && b == total))
                &&& (script.put_result matches Err(e) ==> (outcome matches Err(oe) && oe == e))
            })
            // A read error before any threshold crossing: nothing was ever
            // sent or created; the read error is the outcome.
            &&& (script.read_error is Some && total < t ==> {
                &&& trace.put_calls == 0 && trace.sessions_started == 0
                &&& trace.part_calls@.len() == 0
                &&& trace.completed is None && trace.abort_calls == 0
                &&& outcome matches Err(oe) && oe == script.read_error->0
            })
            // Session creation failed at the first crossing: fatal, no
            // session exists, nothing to clean up.
            &&& (script.start_result is Err && total >= t ==> {
                &&& trace.put_calls == 0 && trace.sessions_started == 0
                &&& trace.part_calls@.len() == 0
                &&& trace.completed is None && trace.abort_calls == 0
                &&& outcome matches Err(oe) && oe == script.start_result->Err_0
            })
            // Multipart path: exactly one session; every full part is
            // uploaded under part number 1, 2, ... with its bytes, and on a
            // clean end of stream the remainder follows as the last part.
            &&& (script.start_result is Ok && total >= t ==> {
                &&& trace.put_calls == 0 && trace.sessions_started == 1
                &&& trace.part_calls@.len() == (if script.read_error is None {
                    n_parts
                } else {
                    full.len() as int
                })
                &&& (forall|k: int| #![trigger trace.part_calls@[k]]
                    0 <= k < full.len() ==> trace.part_calls@[k].part_number == k + 1
                        && trace.part_calls@[k].bytes@ == full[k])
                &&& (script.read_error is None
                    ==> trace.part_calls@[n_parts - 1].part_number == n_parts
                        && trace.part_calls@[n_parts - 1].bytes@ == stream_remainder(views, t))
            })
            // A read error after the session started: Abort exactly once,
            // Complete never, the read error is the outcome.
            &&& (script.read_error is Some && script.start_result is Ok && total >= t ==> {
                &&& trace.completed is None && trace.abort_calls == 1
                &&& outcome matches Err(oe) && oe == script.read_error->0
            })
            // Any failed or lost part: Abort exactly once, Complete never,
            // and the caller sees the first failure in part-number order.
            &&& (script.read_error is None && script.start_result is Ok && total >= t && bad
                < n_parts ==> {
                &&& trace.completed is None && trace.abort_calls == 1
                &&& outcome matches Err(oe) && oe == fate_error(fates[bad])
            })
            // Every part joined with a tag: Complete receives exactly the
            // tags under part numbers 1..=n, sorted ascending, and the
            // caller sees the total bytes read across the whole stream.
            &&& (script.read_error is None && script.start_result is Ok && total >= t && bad
                == n_parts ==> {
                &&& trace.abort_calls == 0
                &&& trace.completed matches Some(tags) && tags@ =~= expected_etags(fates, n_parts)
                    && contiguous_from_one(tags@) && sorted_by_part_number(tags@)
                &&& (script.complete_result is Ok ==> (outcome matches Ok(b) && b == total))
                &&& (script.complete_result matches Err(e) ==> (outcome matches Err(oe) && oe
                    == e))
            })
        }),
{
    let ghost views = read_views(reads@);
    let ghost t = effective_part_size(*options);
    let ghost fates_all = script.part_fates@;

    let BackendScript { read_error, put_result, start_result, part_fates, complete_result, abort_result } =
        script;
    let mut start_result_opt: Option<Result<String, Error>> = Some(start_result);
    let mut part_fates = part_fates;

    let config = EngineConfig::from_options(options);
    let mut chunker = Chunker::new(config.data_part_size);
    let mut counter = PartCounter::new();
    let mut gate = AdmissionGate::new(config.semaphore_permits);
    let mut upload_id: Option<String> = None;
    let mut outcomes: Vec<PartOutcome> = Vec::new();
    let mut part_calls: Vec<PartCall> = Vec::new();
    let mut sessions_started: usize = 0;

    proof {
        assert(views.skip(0) =~= views);
        assert(views.take(0) =~= Seq::<Seq<u8>>::empty());
        assert(fates_all.skip(0) =~= fates_all);
        lemma_total_len_nonneg(views);
    }

    let n_reads = reads.len();
    let mut idx: usize = 0;
    while idx < n_reads
        invariant
            idx <= n_reads,
            n_reads == reads@.len(),
            views == read_views(reads@),
            t == config.data_part_size as int,
            t == effective_part_size(*options),
            config.wf(),
            total_len(views) <= usize::MAX,
            reads@.len() + 2 <= usize::MAX,
            fates_all.len() >= reads@.len() + 1,
            chunker.wf(),
            chunker.threshold == config.data_part_size,
            chunker.total_bytes + total_len(views.skip(idx as int)) == total_len(views),
            chunker.accumulator@ == split_parts(views.take(idx as int), t, Seq::<u8>::empty()).1,
            ({
                let fp = split_parts(views.take(idx as int), t, Seq::<u8>::empty()).0;
                &&& fp.len() <= idx
                &&& part_calls@.len() == fp.len()
                &&& (forall|k: int| #![trigger part_calls@[k]]
                    0 <= k < fp.len() ==> part_calls@[k].part_number == k + 1
                        && part_calls@[k].bytes@ == fp[k])
                &&& outcomes@.len() == fp.len()
                &&& (forall|k: int| #![trigger outcomes@[k]]
                    0 <= k < fp.len() ==> outcomes@[k].part_number == k + 1
                        && outcomes@[k].fate == fates_all[k])
                &&& part_fates@ =~= fates_all.skip(fp.len() as int)
                &&& counter.next() == fp.len() + 1
                &&& (upload_id is Some <==> fp.len() > 0)
                &&& (fp.len() > 0 ==> sessions_started == 1 && start_result_opt is None
                    && script.start_result is Ok)
                &&& (fp.len() == 0 ==> sessions_started == 0 && start_result_opt == Some(
                    script.start_result,
                ))
            }),
            gate.wf(),
            gate.in_flight() == 0,
            gate.max_permits() == config.semaphore_permits as int,
            read_error == script.read_error,
            put_result == script.put_result,
            complete_result == script.complete_result,
            abort_result == script.abort_result,
        decreases n_reads - idx,
    {
        let ghost prefix = views.take(idx as int);
        let ghost fp_before = split_parts(prefix, t, Seq::<u8>::empty()).0;
        let chunk: &Vec<u8> = &reads[idx];
        proof {
            assert(chunk@ == views[idx as int]);
            assert(views.skip(idx as int)[0] == views[idx as int]);
            assert(views.skip(idx as int).drop_first() =~= views.skip(idx as int + 1));
            assert(total_len(views.skip(idx as int)) == views[idx as int].len() + total_len(
                views.skip(idx as int + 1),
            ));
            lemma_total_len_nonneg(views.skip(idx as int + 1));
        }
        let maybe_part = chunker.push(chunk.as_slice());
        proof {
            lemma_split_parts_snoc(prefix, t, Seq::<u8>::empty(), views[idx as int]);
            assert(prefix.push(views[idx as int]) =~= views.take(idx as int + 1));
        }
        match maybe_part {
            Some(part_bytes) => {
                proof {
                    // the whole stream reaches the threshold: what has been
                    // read so far already does
                    assert(total_len(views) >= t);
                }
                if upload_id.is_none() {
                    match start_result_opt.take() {
                        Some(Ok(id)) => {
                            upload_id = Some(id);
                            sessions_started = 1;
                        },
                        Some(Err(e)) => {
                            proof {
                                lemma_split_parts_empty_iff_small(views, t, Seq::<u8>::empty());
                            }
                            return (
                                UploadTrace {
                                    put_calls: 0,
                                    put_body: None,
                                    sessions_started: 0,
                                    part_calls,
                                    completed: None,
                                    abort_calls: 0,
                                    abort_failure: None,
                                },
                                Err(e),
                            );
                        },
                        None => {
                            // cannot happen: the session result is taken
                            // only here, at the first threshold crossing
                            proof {
                                assert(false);
                            }
                            return (
                                UploadTrace {
                                    put_calls: 0,
                                    put_body: None,
                                    sessions_started: 0,
                                    part_calls,
                                    completed: None,
                                    abort_calls: 0,
                                    abort_failure: None,
                                },
                                Err(Error::JoinError),
                            );
                        },
                    }
                }
                gate.acquire();
                let part_number = counter.fetch_next();
                part_calls.push(PartCall { part_number, bytes: part_bytes });
                let fate = part_fates.remove(0);
                proof {
                    assert(fate == fates_all[fp_before.len() as int]);
                    assert(part_fates@ =~= fates_all.skip(fp_before.len() as int + 1));
                }
                outcomes.push(PartOutcome { part_number, fate });
                gate.release();
            },
            None => {
            },
        }
        idx = idx + 1;
    }
    proof {
        assert(views.take(n_reads as int) =~= views);
        assert(views.skip(n_reads as int) =~= Seq::<Seq<u8>>::empty());
        lemma_split_parts_empty_iff_small(views, t, Seq::<u8>::empty());
    }
    let ghost full = stream_parts(views, t);
    let ghost n_parts = full.len() as int + 1;

    // The stream is exhausted: either it ended with a read error, or
    // cleanly.
    match read_error {
        Some(e) => {
            if upload_id.is_some() {
                // a session exists: abort it; a failed abort is reported
                // but never masks the read error
                let abort_failure = match abort_result {
                    Ok(_) => None,
                    Err(ae) => Some(ae),
                };
                return (
                    UploadTrace {
                        put_calls: 0,
                        put_body: None,
                        sessions_started,
                        part_calls,
                        completed: None,
                        abort_calls: 1,
                        abort_failure,
                    },
                    Err(e),
                );
            }
            return (
                UploadTrace {
                    put_calls: 0,
                    put_body: None,
                    sessions_started,
                    part_calls,
                    completed: None,
                    abort_calls: 0,
                    abort_failure: None,
                },
                Err(e),
            );
        },
        None => {
        },
    }

    if upload_id.is_none() {
        // single-shot path: the whole stream stayed below the threshold
        // and is sent as one PUT; no session was ever created
        proof {
            lemma_split_parts_conserves(views, t, Seq::<u8>::empty());
        }
        let body = chunker.take_remainder();
        proof {
            assert(stream_parts(views, t).flatten() =~= Seq::<u8>::empty());
            assert(Seq::<u8>::empty() + views.flatten() =~= views.flatten());
        }
        let outcome = match put_result {
            Ok(_) => Ok(chunker.total_bytes),
            Err(e) => Err(e),
        };
        return (
            UploadTrace {
                put_calls: 1,
                put_body: Some(body),
                sessions_started,
                part_calls,
                completed: None,
                abort_calls: 0,
                abort_failure: None,
            },
            outcome,
        );
    }

    // multipart path: dispatch the remainder as the final part, whatever
    // its size
    let rest = chunker.take_remainder();
    gate.acquire();
    let part_number = counter.fetch_next();
    part_calls.push(PartCall { part_number, bytes: rest });
    let fate = part_fates.remove(0);
    proof {
        assert(fate == fates_all[n_parts - 1]);
    }
    outcomes.push(PartOutcome { part_number, fate });
    gate.release();

    let ghost outcomes_view = outcomes@;
    proof {
        assert(fates_of(outcomes_view) =~= fates_all.take(n_parts));
        lemma_first_bad_prefix(fates_of(outcomes_view), fates_all, n_parts);
        lemma_first_bad_ensures(fates_all, n_parts);
    }

    // Finalizing: join every dispatched task in order; Complete on full
    // success, Abort on the first failure
    match collect_results(outcomes) {
        Ok(e_tags) => {
            let ghost assigned = assigned_etags(outcomes_view);
            let sorted = sort_by_part_number(e_tags);
            proof {
                assert(contiguous_from_one(assigned));
                lemma_sort_of_permutation_is_contiguous(sorted@, assigned);
                crate::parts::lemma_contiguous_same_multiset_is_equal(sorted@, assigned);
                assert(assigned =~= expected_etags(fates_all, n_parts));
            }
            let outcome = match complete_result {
                Ok(_) => Ok(chunker.total_bytes),
                Err(e) => Err(e),
            };
            (
                UploadTrace {
                    put_calls: 0,
                    put_body: None,
                    sessions_started,
                    part_calls,
                    completed: Some(sorted),
                    abort_calls: 0,
                    abort_failure: None,
                },
                outcome,
            )
        },
        Err(e) => {
            let abort_failure = match abort_result {
                Ok(_) => None,
                Err(ae) => Some(ae),
            };
            (
                UploadTrace {
                    put_calls: 0,
                    put_body: None,
                    sessions_started,
                    part_calls,
                    completed: None,
                    abort_calls: 1,
                    abort_failure,
                },
                Err(e),
            )
        },
    }
}

} // verus!
