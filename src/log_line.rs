use vstd::prelude::*;

verus! {

/// What one log line says about the running programs.
pub enum LineKind {
    /// Text that carries nothing the parser uses.
    Trivia,
    /// Program output made of base64 characters only: the payload after the marker.
    Data(Seq<char>),
    /// `Program <id> invoke ...`
    Invoke(Seq<char>),
    /// `Program <id> success`
    Return(Seq<char>),
    /// `Program <id> <rest>` with any other suffix.
    InProgram(Seq<char>),
}

/// `"Program "`
pub open spec fn program_word() -> Seq<char> {
    seq!['P', 'r', 'o', 'g', 'r', 'a', 'm', ' ']
}

/// `"Program log: "`, the marker of free-form program output.
pub open spec fn log_marker() -> Seq<char> {
    program_word() + seq!['l', 'o', 'g', ':', ' ']
}

/// `"Program data: "`, the marker of binary program output.
pub open spec fn data_marker() -> Seq<char> {
    program_word() + seq!['d', 'a', 't', 'a', ':', ' ']
}

/// `" invoke"`
pub open spec fn invoke_word() -> Seq<char> {
    seq![' ', 'i', 'n', 'v', 'o', 'k', 'e']
}

/// `" succes"`: the return pattern ends in `succes` followed by any number of `s`.
pub open spec fn success_stem() -> Seq<char> {
    seq![' ', 's', 'u', 'c', 'c', 'e', 's']
}

pub open spec fn has_prefix(s: Seq<char>, p: Seq<char>) -> bool {
    p.len() <= s.len() && s.subrange(0, p.len() as int) == p
}

pub open spec fn occurs_at(s: Seq<char>, p: Seq<char>, k: int) -> bool {
    0 <= k && k + p.len() <= s.len() && s.subrange(k, k + p.len()) == p
}

pub open spec fn is_base64_char(c: char) -> bool {
    ('a' <= c && c <= 'z') || ('A' <= c && c <= 'Z') || ('0' <= c && c <= '9') || c == '+'
        || c == '/' || c == '='
}

pub open spec fn all_base64(s: Seq<char>) -> bool {
    forall|i: int| 0 <= i < s.len() ==> is_base64_char(#[trigger] s[i])
}

pub open spec fn no_newline(s: Seq<char>) -> bool {
    forall|i: int| 0 <= i < s.len() ==> #[trigger] s[i] != '\n'
}

/// The line matches `^Program (.*) invoke.*$` with `" invoke"` starting at `k`.
pub open spec fn invoke_split(s: Seq<char>, k: int) -> bool {
    8 <= k && occurs_at(s, invoke_word(), k)
}

/// The line matches `^Program (.*) success*$` with `" succes"` starting at `k`.
pub open spec fn return_split(s: Seq<char>, k: int) -> bool {
    8 <= k && occurs_at(s, success_stem(), k) && forall|j: int|
        k + 7 <= j < s.len() ==> #[trigger] s[j] == 's'
}

pub open spec fn matches_invoke(s: Seq<char>) -> bool {
    has_prefix(s, program_word()) && no_newline(s) && exists|k: int| invoke_split(s, k)
}

pub open spec fn matches_return(s: Seq<char>) -> bool {
    has_prefix(s, program_word()) && no_newline(s) && exists|k: int| return_split(s, k)
}

/// The greedy capture of the invoke pattern: the program id ends where the last `" invoke"` starts.
pub open spec fn invoke_id(s: Seq<char>) -> Seq<char> {
    let k = choose|k: int| invoke_split(s, k) && forall|m: int| #[trigger]
        invoke_split(s, m) ==> m <= k;
    s.subrange(8, k)
}

/// The greedy capture of the return pattern.
pub open spec fn return_id(s: Seq<char>) -> Seq<char> {
    let k = choose|k: int| return_split(s, k) && forall|m: int| #[trigger]
        return_split(s, m) ==> m <= k;
    s.subrange(8, k)
}

/// Index of the first space at or after `from`, if any.
pub open spec fn first_space_from(s: Seq<char>, from: int) -> Option<int>
    decreases s.len() - from,
{
    if from < 0 || from >= s.len() {
        None
    } else if s[from] == ' ' {
        Some(from)
    } else {
        first_space_from(s, from + 1)
    }
}

pub proof fn lemma_first_space_bounds(s: Seq<char>, from: int)
    ensures
        first_space_from(s, from) is Some ==> from <= first_space_from(s, from)->0 < s.len(),
    decreases s.len() - from,
{
    if 0 <= from < s.len() && s[from] != ' ' {
        lemma_first_space_bounds(s, from + 1);
    }
}

/// The classification of a line; the first rule that applies wins.
pub open spec fn classify(s: Seq<char>) -> LineKind {
    if has_prefix(s, log_marker()) || has_prefix(s, data_marker()) {
        let payload = if has_prefix(s, log_marker()) {
            s.subrange(13, s.len() as int)
        } else {
            s.subrange(14, s.len() as int)
        };
        if all_base64(payload) {
            LineKind::Data(payload)
        } else {
            LineKind::Trivia
        }
    } else if matches_invoke(s) {
        LineKind::Invoke(invoke_id(s))
    } else if matches_return(s) {
        LineKind::Return(return_id(s))
    } else if has_prefix(s, program_word()) && first_space_from(s, 8) is Some {
        LineKind::InProgram(s.subrange(8, first_space_from(s, 8)->0))
    } else {
        LineKind::Trivia
    }
}

/// Program output is a data line exactly when its payload is made of base64 characters only;
/// any other output is trivia.
pub proof fn lemma_output_payload_kind(s: Seq<char>)
    requires
        has_prefix(s, log_marker()) || has_prefix(s, data_marker()),
    ensures
        ({
            let payload = if has_prefix(s, log_marker()) {
                s.subrange(13, s.len() as int)
            } else {
                s.subrange(14, s.len() as int)
            };
            &&& all_base64(payload) ==> classify(s) == LineKind::Data(payload)
            &&& !all_base64(payload) ==> classify(s) == LineKind::Trivia
        }),
{
}

/// The characters of `s`, one by one.
pub fn chars_of(s: &str) -> (r: Vec<char>)
    ensures
        r@ == s@,
{
    let n = s.unicode_len();
    let mut r: Vec<char> = Vec::new();
    let mut i: usize = 0;
    while i < n
        invariant
            n == s@.len(),
            i <= n,
            r@ == s@.subrange(0, i as int),
        decreases n - i,
    {
        let c = s.get_char(i);
        r.push(c);
        assert(s@.subrange(0, i + 1) == s@.subrange(0, i as int).push(c));
        i += 1;
    }
    assert(s@.subrange(0, n as int) == s@);
    r
}

/// The kind of a line as positions in it: where the payload starts, or where the id ends
/// (an id always starts right after `"Program "`).
pub enum LogType {
    Trivia,
    Data(usize),
    Invoke(usize),
    Return(usize),
    InProgram(usize),
}

impl LogType {
    pub open spec fn kind_in(self, s: Seq<char>) -> LineKind {
        match self {
            LogType::Trivia => LineKind::Trivia,
            LogType::Data(a) => LineKind::Data(s.subrange(a as int, s.len() as int)),
            LogType::Invoke(e) => LineKind::Invoke(s.subrange(8, e as int)),
            LogType::Return(e) => LineKind::Return(s.subrange(8, e as int)),
            LogType::InProgram(e) => LineKind::InProgram(s.subrange(8, e as int)),
        }
    }

    pub open spec fn fits(self, s: Seq<char>) -> bool {
        match self {
            LogType::Trivia => true,
            LogType::Data(a) => a <= s.len(),
            LogType::Invoke(e) => 8 <= e <= s.len(),
            LogType::Return(e) => 8 <= e <= s.len(),
            LogType::InProgram(e) => 8 <= e <= s.len(),
        }
    }
}

fn program_word_exec() -> (r: Vec<char>)
    ensures
        r@ == program_word(),
{
    vec!['P', 'r', 'o', 'g', 'r', 'a', 'm', ' ']
}

fn log_marker_exec() -> (r: Vec<char>)
    ensures
        r@ == log_marker(),
{
    let r = vec!['P', 'r', 'o', 'g', 'r', 'a', 'm', ' ', 'l', 'o', 'g', ':', ' '];
    assert(r@ =~= log_marker());
    r
}

fn data_marker_exec() -> (r: Vec<char>)
    ensures
        r@ == data_marker(),
{
    let r = vec!['P', 'r', 'o', 'g', 'r', 'a', 'm', ' ', 'd', 'a', 't', 'a', ':', ' '];
    assert(r@ =~= data_marker());
    r
}

fn invoke_word_exec() -> (r: Vec<char>)
    ensures
        r@ == invoke_word(),
{
    vec![' ', 'i', 'n', 'v', 'o', 'k', 'e']
}

fn success_stem_exec() -> (r: Vec<char>)
    ensures
        r@ == success_stem(),
{
    vec![' ', 's', 'u', 'c', 'c', 'e', 's']
}

/// Whether `p` occurs in `s` at position `k`.
fn occurs_at_exec(s: &Vec<char>, p: &Vec<char>, k: usize) -> (r: bool)
    ensures
        r == occurs_at(s@, p@, k as int),
{
    if k > s.len() || p.len() > s.len() - k {
        return false;
    }
    let mut i: usize = 0;
    while i < p.len()
        invariant
            k + p@.len() <= s@.len(),
            s@.len() <= usize::MAX,
            i <= p@.len(),
            forall|j: int| 0 <= j < i ==> s@[k + j] == p@[j],
        decreases p@.len() - i,
    {
        assert(k + i < s@.len());
        if s[k + i] != p[i] {
            assert(s@.subrange(k as int, k + p@.len())[i as int] != p@[i as int]);
            return false;
        }
        i += 1;
    }
    assert(s@.subrange(k as int, k + p@.len()) =~= p@);
    true
}

fn is_base64_char_exec(c: char) -> (r: bool)
    ensures
        r == is_base64_char(c),
{
    ('a' <= c && c <= 'z') || ('A' <= c && c <= 'Z') || ('0' <= c && c <= '9') || c == '+'
        || c == '/' || c == '='
}

/// Whether `s[from..]` holds base64 characters only.
fn all_base64_from(s: &Vec<char>, from: usize) -> (r: bool)
    requires
        from <= s@.len(),
    ensures
        r == all_base64(s@.subrange(from as int, s@.len() as int)),
{
    let mut i: usize = from;
    while i < s.len()
        invariant
            from <= i <= s@.len(),
            forall|j: int| from <= j < i ==> is_base64_char(#[trigger] s@[j]),
        decreases s@.len() - i,
    {
        if !is_base64_char_exec(s[i]) {
            assert(s@.subrange(from as int, s@.len() as int)[i - from] == s@[i as int]);
            return false;
        }
        i += 1;
    }
    assert forall|j: int| 0 <= j < s@.len() - from implies is_base64_char(
        #[trigger] s@.subrange(from as int, s@.len() as int)[j],
    ) by {
        assert(s@.subrange(from as int, s@.len() as int)[j] == s@[from + j]);
    }
    true
}

fn no_newline_exec(s: &Vec<char>) -> (r: bool)
    ensures
        r == no_newline(s@),
{
    let mut i: usize = 0;
    while i < s.len()
        invariant
            i <= s@.len(),
            forall|j: int| 0 <= j < i ==> #[trigger] s@[j] != '\n',
        decreases s@.len() - i,
    {
        if s[i] == '\n' {
            return false;
        }
        i += 1;
    }
    true
}

/// The last position at which `" invoke"` follows `"Program "`, if any.
fn last_invoke_split(s: &Vec<char>) -> (r: Option<usize>)
    ensures
        r is Some <==> exists|k: int| invoke_split(s@, k),
        r is Some ==> invoke_split(s@, r->0 as int) && forall|m: int|
            #[trigger] invoke_split(s@, m) ==> m <= r->0,
{
    let w = invoke_word_exec();
    if s.len() < 15 {
        assert forall|m: int| !invoke_split(s@, m) by {}
        return None;
    }
    let mut k: usize = s.len() - 7;
    loop
        invariant
            8 <= k <= s@.len() - 7,
            w@ == invoke_word(),
            forall|m: int| k < m ==> !#[trigger] invoke_split(s@, m),
        decreases k,
    {
        if occurs_at_exec(s, &w, k) {
            assert(invoke_split(s@, k as int));
            return Some(k);
        }
        if k == 8 {
            assert forall|m: int| !#[trigger] invoke_split(s@, m) by {}
            return None;
        }
        k -= 1;
    }
}

/// Whether `s[from..]` holds `'s'` only.
fn all_s_from(s: &Vec<char>, from: usize) -> (r: bool)
    requires
        from <= s@.len(),
    ensures
        r == forall|j: int| from <= j < s@.len() ==> #[trigger] s@[j] == 's',
{
    let mut i: usize = from;
    while i < s.len()
        invariant
            from <= i <= s@.len(),
            forall|j: int| from <= j < i ==> #[trigger] s@[j] == 's',
        decreases s@.len() - i,
    {
        if s[i] != 's' {
            return false;
        }
        i += 1;
    }
    true
}

/// The last position at which the return pattern's `" succes"` can start, if any.
fn last_return_split(s: &Vec<char>) -> (r: Option<usize>)
    ensures
        r is Some <==> exists|k: int| return_split(s@, k),
        r is Some ==> return_split(s@, r->0 as int) && forall|m: int|
            #[trigger] return_split(s@, m) ==> m <= r->0,
{
    let w = success_stem_exec();
    if s.len() < 15 {
        assert forall|m: int| !return_split(s@, m) by {}
        return None;
    }
    let mut k: usize = s.len() - 7;
    loop
        invariant
            8 <= k <= s@.len() - 7,
            s@.len() <= usize::MAX,
            w@ == success_stem(),
            forall|m: int| k < m ==> !#[trigger] return_split(s@, m),
        decreases k,
    {
        assert(k + 7 <= s@.len());
        if occurs_at_exec(s, &w, k) && all_s_from(s, k + 7) {
            assert(return_split(s@, k as int));
            return Some(k);
        }
        if k == 8 {
            assert forall|m: int| !#[trigger] return_split(s@, m) by {}
            return None;
        }
        k -= 1;
    }
}

/// Index of the first space at or after `from`, if any.
fn first_space_exec(s: &Vec<char>, from: usize) -> (r: Option<usize>)
    requires
        from <= s@.len(),
    ensures
        r == (match first_space_from(s@, from as int) {
            Some(i) => Some(i as usize),
            None => None::<usize>,
        }),
{
    let mut i: usize = from;
    while i < s.len()
        invariant
            from <= i <= s@.len(),
            first_space_from(s@, from as int) == first_space_from(s@, i as int),
        decreases s@.len() - i,
    {
        if s[i] == ' ' {
            return Some(i);
        }
        i += 1;
    }
    None
}

/// The invoke or return pattern, for a line that starts with `"Program "` and has no newline.
fn parse_call_line(s: &Vec<char>) -> (r: Option<LogType>)
    requires
        has_prefix(s@, program_word()),
        no_newline(s@),
    ensures
        r is Some <==> (matches_invoke(s@) || matches_return(s@)),
        r is Some ==> r->0.fits(s@) && r->0.kind_in(s@) == classify(s@) || has_prefix(
            s@,
            log_marker(),
        ) || has_prefix(s@, data_marker()),
{
    match last_invoke_split(s) {
        Some(k) => {
            proof {
                let kk = choose|kk: int| invoke_split(s@, kk) && forall|m: int| #[trigger]
                    invoke_split(s@, m) ==> m <= kk;
                assert(kk == k);
            }
            return Some(LogType::Invoke(k));
        },
        None => {},
    }
    match last_return_split(s) {
        Some(k) => {
            proof {
                let kk = choose|kk: int| return_split(s@, kk) && forall|m: int| #[trigger]
                    return_split(s@, m) ==> m <= kk;
                assert(kk == k);
            }
            Some(LogType::Return(k))
        },
        None => None,
    }
}

/// Classifies one line of a transaction's log.
pub fn parse_log_line(s: &Vec<char>) -> (r: LogType)
    ensures
        r.fits(s@),
        r.kind_in(s@) == classify(s@),
{
    let lm = log_marker_exec();
    let dm = data_marker_exec();
    let is_log = occurs_at_exec(s, &lm, 0);
    let is_data = occurs_at_exec(s, &dm, 0);
    if is_log || is_data {
        let start: usize = if is_log { 13 } else { 14 };
        if all_base64_from(s, start) {
            return LogType::Data(start);
        }
        return LogType::Trivia;
    }
    let pw = program_word_exec();
    let has_program = occurs_at_exec(s, &pw, 0);
    if has_program && no_newline_exec(s) {
        match parse_call_line(s) {
            Some(t) => {
                return t;
            },
            None => {},
        }
    }
    let n = s.len();
    if has_program {
        match first_space_exec(s, 8) {
            Some(e) => {
                proof {
                    lemma_first_space_bounds(s@, 8);
                    assert(e as int == first_space_from(s@, 8)->0);
                    assert(!matches_invoke(s@) && !matches_return(s@));
                }
                return LogType::InProgram(e);
            },
            None => {},
        }
    }
    LogType::Trivia
}

} // verus!
