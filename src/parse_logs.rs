use vstd::prelude::*;

use crate::codec::{base64_decoded, decode_base64};
use crate::log_line::{chars_of, classify, parse_log_line, LineKind, LogType};

verus! {

/// A decoded data record written by a watched program.
pub struct AnchorEvent {
    pub program_id: String,
    pub data: Vec<u8>,
}

/// A diagnostic about one line of a transaction's log.
#[derive(Debug)]
pub enum ParseLogError {
    /// The line names `expect` while `current` runs (`None`: nothing runs).
    ProgramIdMismatch { line: String, current: Option<String>, expect: String },
    /// Program output while no program runs.
    NoCurrentProgramId { line: String },
    /// A watched program's output is not valid base64.
    Base64Decode { line: String, error: String },
    /// An invoke line without a program id.
    ParseInvoke { line: String },
    /// A return line without a program id.
    ParseReturn { line: String },
}

/// What a diagnostic says, as plain values (the decoder's message left out).
pub enum ErrorModel {
    Mismatch(Seq<char>, Option<Seq<char>>, Seq<char>),
    NoCurrent(Seq<char>),
    Decode(Seq<char>),
    Invoke(Seq<char>),
    Return(Seq<char>),
}

pub open spec fn error_model(e: ParseLogError) -> ErrorModel {
    match e {
        ParseLogError::ProgramIdMismatch { line, current, expect } => ErrorModel::Mismatch(
            line@,
            match current {
                Some(c) => Some(c@),
                None => None,
            },
            expect@,
        ),
        ParseLogError::NoCurrentProgramId { line } => ErrorModel::NoCurrent(line@),
        ParseLogError::Base64Decode { line, .. } => ErrorModel::Decode(line@),
        ParseLogError::ParseInvoke { line } => ErrorModel::Invoke(line@),
        ParseLogError::ParseReturn { line } => ErrorModel::Return(line@),
    }
}

pub open spec fn event_model(e: AnchorEvent) -> (Seq<char>, Seq<u8>) {
    (e.program_id@, e.data@)
}

pub open spec fn strings_model(v: Seq<String>) -> Seq<Seq<char>> {
    v.map_values(|s: String| s@)
}

pub open spec fn lines_model(v: Seq<&str>) -> Seq<Seq<char>> {
    v.map_values(|s: &str| s@)
}

/// The state of the parser after some lines: the invocation stack (top last), the events and
/// the diagnostics so far.
pub struct ParseModel {
    pub stack: Seq<Seq<char>>,
    pub events: Seq<(Seq<char>, Seq<u8>)>,
    pub errors: Seq<ErrorModel>,
}

pub open spec fn initial_model() -> ParseModel {
    ParseModel { stack: Seq::empty(), events: Seq::empty(), errors: Seq::empty() }
}

/// One line's effect on the parser.
pub open spec fn step(m: ParseModel, line: Seq<char>, watched: Seq<Seq<char>>) -> ParseModel {
    match classify(line) {
        LineKind::Invoke(id) => ParseModel { stack: m.stack.push(id), ..m },
        LineKind::Return(id) => {
            if m.stack.len() == 0 {
                m
            } else if m.stack.last() == id {
                ParseModel { stack: m.stack.drop_last(), ..m }
            } else {
                ParseModel {
                    stack: m.stack.drop_last(),
                    errors: m.errors.push(ErrorModel::Mismatch(line, Some(m.stack.last()), id)),
                    ..m
                }
            }
        },
        LineKind::InProgram(id) => {
            if m.stack.len() == 0 {
                ParseModel { errors: m.errors.push(ErrorModel::NoCurrent(line)), ..m }
            } else if m.stack.last() != id {
                ParseModel {
                    errors: m.errors.push(ErrorModel::Mismatch(line, Some(m.stack.last()), id)),
                    ..m
                }
            } else {
                m
            }
        },
        LineKind::Data(payload) => {
            if m.stack.len() == 0 {
                ParseModel { errors: m.errors.push(ErrorModel::NoCurrent(line)), ..m }
            } else if watched.contains(m.stack.last()) {
                match base64_decoded(payload) {
                    Some(bytes) => ParseModel {
                        events: m.events.push((m.stack.last(), bytes)),
                        ..m
                    },
                    None => ParseModel { errors: m.errors.push(ErrorModel::Decode(line)), ..m },
                }
            } else {
                m
            }
        },
        LineKind::Trivia => m,
    }
}

/// The parser's state after all of `lines`, in order.
pub open spec fn run(lines: Seq<Seq<char>>, watched: Seq<Seq<char>>) -> ParseModel
    decreases lines.len(),
{
    if lines.len() == 0 {
        initial_model()
    } else {
        step(run(lines.drop_last(), watched), lines.last(), watched)
    }
}

/// The call nesting that `lines` describe, or `None` where a return, an in-program line or a
/// data line does not fit the program running at that point.
pub open spec fn nesting(lines: Seq<Seq<char>>) -> Option<Seq<Seq<char>>>
    decreases lines.len(),
{
    if lines.len() == 0 {
        Some(Seq::empty())
    } else {
        match nesting(lines.drop_last()) {
            None => None,
            Some(st) => match classify(lines.last()) {
                LineKind::Invoke(id) => Some(st.push(id)),
                LineKind::Return(id) => if st.len() > 0 && st.last() == id {
                    Some(st.drop_last())
                } else {
                    None
                },
                LineKind::InProgram(id) => if st.len() > 0 && st.last() == id {
                    Some(st)
                } else {
                    None
                },
                LineKind::Data(_) => if st.len() > 0 {
                    Some(st)
                } else {
                    None
                },
                LineKind::Trivia => Some(st),
            },
        }
    }
}

/// Every invoke is closed by the return of the same program, and every line that speaks of a
/// running program comes while one runs.
pub open spec fn well_formed(lines: Seq<Seq<char>>) -> bool {
    nesting(lines) == Some(Seq::<Seq<char>>::empty())
}

pub open spec fn is_context_error(e: ErrorModel) -> bool {
    e is Mismatch || e is NoCurrent
}

pub open spec fn no_context_errors(errors: Seq<ErrorModel>) -> bool {
    forall|i: int| 0 <= i < errors.len() ==> !is_context_error(#[trigger] errors[i])
}

/// While the lines nest, the parser's stack is the nesting and it reports no context error.
pub proof fn lemma_nesting_tracks_stack(lines: Seq<Seq<char>>, watched: Seq<Seq<char>>)
    requires
        nesting(lines) is Some,
    ensures
        run(lines, watched).stack == nesting(lines)->0,
        no_context_errors(run(lines, watched).errors),
    decreases lines.len(),
{
    if lines.len() > 0 {
        lemma_nesting_tracks_stack(lines.drop_last(), watched);
        let m = run(lines.drop_last(), watched);
        let m2 = run(lines, watched);
        assert forall|i: int| 0 <= i < m2.errors.len() implies !is_context_error(
            #[trigger] m2.errors[i],
        ) by {
            if i < m.errors.len() {
                assert(m2.errors[i] == m.errors[i]);
            }
        }
    }
}

/// After a well-formed log the invocation stack is empty, and no line was reported for a
/// program mismatch or for running outside any program.
pub proof fn lemma_well_formed_log_parses_cleanly(lines: Seq<Seq<char>>, watched: Seq<Seq<char>>)
    requires
        well_formed(lines),
    ensures
        run(lines, watched).stack.len() == 0,
        no_context_errors(run(lines, watched).errors),
{
    lemma_nesting_tracks_stack(lines, watched);
}

/// A line adds an event only if it is a data line seen while a program runs, and the event
/// belongs to the program on top of the invocation stack; earlier events stay as they were.
pub proof fn lemma_event_belongs_to_top(m: ParseModel, line: Seq<char>, watched: Seq<Seq<char>>)
    ensures
        step(m, line, watched).events == m.events || (classify(line) is Data && m.stack.len() > 0
            && step(m, line, watched).events.len() == m.events.len() + 1
            && step(m, line, watched).events.drop_last() == m.events && step(
            m,
            line,
            watched,
        ).events.last().0 == m.stack.last()),
{
    let m2 = step(m, line, watched);
    if m2.events != m.events {
        assert(m2.events.drop_last() =~= m.events);
    }
}

/// Event `k` of the whole log comes from line `j`: a data line seen while a program runs,
/// after exactly `k` earlier events, and it belongs to the program then on top of the stack.
pub open spec fn event_origin(lines: Seq<Seq<char>>, watched: Seq<Seq<char>>, k: int, j: int) -> bool {
    &&& 0 <= j < lines.len()
    &&& classify(lines[j]) is Data
    &&& run(lines.take(j), watched).stack.len() > 0
    &&& run(lines.take(j), watched).events.len() == k
    &&& run(lines, watched).events[k].0 == run(lines.take(j), watched).stack.last()
}

pub open spec fn has_origin(lines: Seq<Seq<char>>, watched: Seq<Seq<char>>, k: int) -> bool {
    exists|j: int| #[trigger] event_origin(lines, watched, k, j)
}

/// Over a whole log, every event comes from a data line of its own (the lines of successive
/// events come in order, since each one follows exactly the events before it) and belongs to
/// the program on top of the invocation stack when that line is seen.
pub proof fn lemma_events_belong_to_stack_top(lines: Seq<Seq<char>>, watched: Seq<Seq<char>>)
    ensures
        forall|k: int|
            0 <= k < run(lines, watched).events.len() ==> #[trigger] has_origin(lines, watched, k),
    decreases lines.len(),
{
    if lines.len() > 0 {
        let pre = lines.drop_last();
        lemma_events_belong_to_stack_top(pre, watched);
        lemma_event_belongs_to_top(run(pre, watched), lines.last(), watched);
        let before = run(pre, watched);
        let after = run(lines, watched);
        assert(after == step(before, lines.last(), watched));
        assert forall|k: int| 0 <= k < after.events.len() implies #[trigger] has_origin(
            lines,
            watched,
            k,
        ) by {
            if k < before.events.len() {
                assert(has_origin(pre, watched, k));
                let j = choose|j: int| #[trigger] event_origin(pre, watched, k, j);
                assert(lines.take(j) =~= pre.take(j));
                assert(lines[j] == pre[j]);
                assert(after.events[k] == before.events[k]);
                assert(event_origin(lines, watched, k, j));
            } else {
                let j = pre.len() as int;
                assert(lines.take(j) =~= pre);
                assert(lines[j] == lines.last());
                assert(event_origin(lines, watched, k, j));
            }
        }
    }
}

fn contains_string(v: &[String], s: &String) -> (r: bool)
    ensures
        r == strings_model(v@).contains(s@),
{
    let mut i: usize = 0;
    while i < v.len()
        invariant
            i <= v@.len(),
            forall|j: int| 0 <= j < i ==> v@[j]@ != s@,
        decreases v@.len() - i,
    {
        if v[i] == *s {
            assert(strings_model(v@)[i as int] == s@);
            return true;
        }
        i += 1;
    }
    assert forall|j: int| 0 <= j < strings_model(v@).len() implies strings_model(v@)[j] != s@ by {
        assert(strings_model(v@)[j] == v@[j]@);
    }
    false
}

/// Turns one transaction's log into the events of the watched programs and the diagnostics,
/// following the invocation stack that the invoke and return lines build.
pub fn parse_logs(logs: &[&str], program_ids: &[String]) -> (r: (Vec<AnchorEvent>, Vec<ParseLogError>))
    ensures
        r.0@.map_values(|e: AnchorEvent| event_model(e)) == run(
            lines_model(logs@),
            strings_model(program_ids@),
        ).events,
        r.1@.map_values(|e: ParseLogError| error_model(e)) == run(
            lines_model(logs@),
            strings_model(program_ids@),
        ).errors,
{
    let ghost watched = strings_model(program_ids@);
    let ghost lines = lines_model(logs@);
    let mut events: Vec<AnchorEvent> = Vec::new();
    let mut errors: Vec<ParseLogError> = Vec::new();
    let mut stack: Vec<String> = Vec::new();
    let mut i: usize = 0;
    while i < logs.len()
        invariant
            i <= logs@.len(),
            watched == strings_model(program_ids@),
            lines == lines_model(logs@),
            strings_model(stack@) == run(lines.take(i as int), watched).stack,
            events@.map_values(|e: AnchorEvent| event_model(e)) == run(
                lines.take(i as int),
                watched,
            ).events,
            errors@.map_values(|e: ParseLogError| error_model(e)) == run(
                lines.take(i as int),
                watched,
            ).errors,
        decreases logs@.len() - i,
    {
        let log: &str = logs[i];
        let ghost m = run(lines.take(i as int), watched);
        proof {
            assert(lines.take(i + 1).drop_last() =~= lines.take(i as int));
            assert(lines.take(i + 1).last() == log@);
        }
        let cs = chars_of(log);
        let kind = parse_log_line(&cs);
        let ghost ev0 = events@;
        let ghost er0 = errors@;
        let ghost st0 = stack@;
        match kind {
            LogType::Invoke(e) => {
                let id = log.substring_char(8, e).to_owned();
                stack.push(id);
                assert(strings_model(stack@) =~= strings_model(st0).push(id@));
            },
            LogType::Return(e) => {
                let id = log.substring_char(8, e).to_owned();
                match stack.pop() {
                    Some(top) => {
                        assert(strings_model(stack@) =~= strings_model(st0).drop_last());
                        if top != id {
                            let err = ParseLogError::ProgramIdMismatch {
                                line: log.to_owned(),
                                current: Some(top),
                                expect: id,
                            };
                            errors.push(err);
                            assert(errors@.map_values(|e: ParseLogError| error_model(e))
                                =~= er0.map_values(|e: ParseLogError| error_model(e)).push(
                                error_model(err),
                            ));
                        }
                    },
                    None => {},
                }
            },
            LogType::InProgram(e) => {
                let id = log.substring_char(8, e).to_owned();
                let n = stack.len();
                if n == 0 {
                    let err = ParseLogError::NoCurrentProgramId { line: log.to_owned() };
                    errors.push(err);
                    assert(errors@.map_values(|e: ParseLogError| error_model(e)) =~= er0.map_values(
                        |e: ParseLogError| error_model(e),
                    ).push(error_model(err)));
                } else if stack[n - 1] != id {
                    let err = ParseLogError::ProgramIdMismatch {
                        line: log.to_owned(),
                        current: Some(stack[n - 1].clone()),
                        expect: id,
                    };
                    errors.push(err);
                    assert(errors@.map_values(|e: ParseLogError| error_model(e)) =~= er0.map_values(
                        |e: ParseLogError| error_model(e),
                    ).push(error_model(err)));
                }
            },
            LogType::Data(a) => {
                let n = stack.len();
                if n == 0 {
                    let err = ParseLogError::NoCurrentProgramId { line: log.to_owned() };
                    errors.push(err);
                    assert(errors@.map_values(|e: ParseLogError| error_model(e)) =~= er0.map_values(
                        |e: ParseLogError| error_model(e),
                    ).push(error_model(err)));
                } else if contains_string(program_ids, &stack[n - 1]) {
                    let payload = log.substring_char(a, cs.len());
                    match decode_base64(payload) {
                        Ok(bytes) => {
                            let ev = AnchorEvent { program_id: stack[n - 1].clone(), data: bytes };
                            events.push(ev);
                            assert(events@.map_values(|e: AnchorEvent| event_model(e))
                                =~= ev0.map_values(|e: AnchorEvent| event_model(e)).push(
                                event_model(ev),
                            ));
                        },
                        Err(msg) => {
                            let err = ParseLogError::Base64Decode {
                                line: log.to_owned(),
                                error: msg,
                            };
                            errors.push(err);
                            assert(errors@.map_values(|e: ParseLogError| error_model(e))
                                =~= er0.map_values(|e: ParseLogError| error_model(e)).push(
                                error_model(err),
                            ));
                        },
                    }
                }
            },
            LogType::Trivia => {},
        }
        i += 1;
    }
    assert(lines.take(logs@.len() as int) =~= lines);
    (events, errors)
}

} // verus!
