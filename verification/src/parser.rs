use vstd::prelude::*;

verus! {

/// One parsed image operation, in the order the script gives it.
/// Construction is infallible; all semantic validation is deferred to the
/// execution engine.
#[derive(Clone, Copy, Debug, PartialEq, Eq, Structural)]
pub enum Operation {
    Blur(u32),
    FlipHorizontal,
    FlipVertical,
    Resize(u32, u32),
    Crop(u32, u32, u32, u32),
}

/// Why a script was rejected.
#[derive(Clone, Copy, Debug, PartialEq, Eq, Structural)]
pub enum ParseErrorKind {
    /// A statement separator stands where a statement was expected.
    EmptyStatement,
    /// The statement's name is not part of the grammar.
    UnknownOperation,
    /// An argument is missing or is not an unsigned decimal number.
    InvalidNumber,
    /// A numeric argument does not fit the operation's parameter type.
    NumberOutOfRange,
    /// The mandatory `;` after the statement is missing.
    MissingSeparator,
}

/// A structured parse failure: the byte offset at which the offending
/// statement starts, and what was wrong with it.
#[derive(Clone, Copy, Debug, PartialEq, Eq, Structural)]
pub struct ParseError {
    pub pos: usize,
    pub kind: ParseErrorKind,
}

/// Insignificant whitespace between tokens: space, tab, line feed, carriage
/// return.
pub open spec fn is_ws(b: u8) -> bool {
    b == 32 || b == 9 || b == 10 || b == 13
}

/// Bytes that may form a statement name or argument token: anything except
/// whitespace and the statement separator `;`.
pub open spec fn is_token_byte(b: u8) -> bool {
    !is_ws(b) && b != 59
}

pub open spec fn is_digit(b: u8) -> bool {
    48 <= b && b <= 57
}

/// Length of the run of whitespace at the head of `s`.
pub open spec fn ws_count(s: Seq<u8>) -> nat
    decreases s.len(),
{
    if s.len() > 0 && is_ws(s[0]) {
        1 + ws_count(s.drop_first())
    } else {
        0
    }
}

/// Length of the token at the head of `s`: its maximal run of token bytes.
pub open spec fn token_len(s: Seq<u8>) -> nat
    decreases s.len(),
{
    if s.len() > 0 && is_token_byte(s[0]) {
        1 + token_len(s.drop_first())
    } else {
        0
    }
}

pub open spec fn all_digits(s: Seq<u8>) -> bool {
    forall|i: int| 0 <= i < s.len() ==> is_digit(#[trigger] s[i])
}

/// Value of a run of decimal digits, most significant first.
pub open spec fn digits_val(s: Seq<u8>) -> int
    decreases s.len(),
{
    if s.len() == 0 {
        0
    } else {
        digits_val(s.drop_last()) * 10 + (s.last() - 48)
    }
}

pub proof fn lemma_ws_count_le(s: Seq<u8>)
    ensures
        ws_count(s) <= s.len(),
    decreases s.len(),
{
    if s.len() > 0 && is_ws(s[0]) {
        lemma_ws_count_le(s.drop_first());
    }
}

pub proof fn lemma_token_len_le(s: Seq<u8>)
    ensures
        token_len(s) <= s.len(),
    decreases s.len(),
{
    if s.len() > 0 && is_token_byte(s[0]) {
        lemma_token_len_le(s.drop_first());
    }
}

pub proof fn lemma_digits_val_nonneg(s: Seq<u8>)
    requires
        all_digits(s),
    ensures
        digits_val(s) >= 0,
    decreases s.len(),
{
    if s.len() > 0 {
        assert(all_digits(s.drop_last()));
        lemma_digits_val_nonneg(s.drop_last());
        assert(digits_val(s.drop_last()) * 10 >= 0) by (nonlinear_arith)
            requires digits_val(s.drop_last()) >= 0,
        ;
    }
}

/// Advances past the run of whitespace that starts at `i`.
fn skip_ws(s: &[u8], i: usize) -> (j: usize)
    requires
        i <= s@.len(),
    ensures
        i <= j <= s@.len(),
        j - i == ws_count(s@.skip(i as int)),
{
    let n = s.len();
    let mut j = i;
    while j < n && (s[j] == 32 || s[j] == 9 || s[j] == 10 || s[j] == 13)
        invariant
            i <= j <= n,
            n == s@.len(),
            ws_count(s@.skip(i as int)) == (j - i) + ws_count(s@.skip(j as int)),
        decreases n - j,
    {
        proof {
            assert(s@.skip(j as int).drop_first() =~= s@.skip(j as int + 1));
        }
        j = j + 1;
    }
    proof {
        assert(ws_count(s@.skip(j as int)) == 0);
    }
    j
}

/// Advances past the run of token bytes that starts at `i`.
fn token_end(s: &[u8], i: usize) -> (j: usize)
    requires
        i <= s@.len(),
    ensures
        i <= j <= s@.len(),
        j - i == token_len(s@.skip(i as int)),
{
    let n = s.len();
    let mut j = i;
    while j < n && !(s[j] == 32 || s[j] == 9 || s[j] == 10 || s[j] == 13 || s[j] == 59)
        invariant
            i <= j <= n,
            n == s@.len(),
            token_len(s@.skip(i as int)) == (j - i) + token_len(s@.skip(j as int)),
        decreases n - j,
    {
        proof {
            assert(s@.skip(j as int).drop_first() =~= s@.skip(j as int + 1));
        }
        j = j + 1;
    }
    proof {
        assert(token_len(s@.skip(j as int)) == 0);
    }
    j
}

pub open spec fn kw_blur() -> Seq<u8> {
    seq![98u8, 108u8, 117u8, 114u8]
}

pub open spec fn kw_flip_horizontal() -> Seq<u8> {
    seq![
        102u8, 108u8, 105u8, 112u8, 95u8, 104u8, 111u8, 114u8, 105u8, 122u8, 111u8, 110u8,
        116u8, 97u8, 108u8,
    ]
}

pub open spec fn kw_flip_vertical() -> Seq<u8> {
    seq![102u8, 108u8, 105u8, 112u8, 95u8, 118u8, 101u8, 114u8, 116u8, 105u8, 99u8, 97u8, 108u8]
}

pub open spec fn kw_resize() -> Seq<u8> {
    seq![114u8, 101u8, 115u8, 105u8, 122u8, 101u8]
}

pub open spec fn kw_crop() -> Seq<u8> {
    seq![99u8, 114u8, 111u8, 112u8]
}

/// The statement name that a token spells, if any.
enum TokenKind {
    Blur,
    FlipHorizontal,
    FlipVertical,
    Resize,
    Crop,
    Unknown,
}

/// Decides which statement name the token `s[i .. i + tl]` spells.
fn classify_token(s: &[u8], i: usize, tl: usize) -> (k: TokenKind)
    requires
        i + tl <= s@.len(),
    ensures
        (k is Blur) == (s@.subrange(i as int, i as int + tl as int) == kw_blur()),
        (k is FlipHorizontal) == (s@.subrange(i as int, i as int + tl as int)
            == kw_flip_horizontal()),
        (k is FlipVertical) == (s@.subrange(i as int, i as int + tl as int) == kw_flip_vertical()),
        (k is Resize) == (s@.subrange(i as int, i as int + tl as int) == kw_resize()),
        (k is Crop) == (s@.subrange(i as int, i as int + tl as int) == kw_crop()),
{
    let ghost tok = s@.subrange(i as int, i as int + tl as int);
    if tl == 4 && s[i] == 98 && s[i + 1] == 108 && s[i + 2] == 117 && s[i + 3] == 114 {
        proof {
            assert(tok =~= kw_blur());
        }
        TokenKind::Blur
    } else if tl == 15 && s[i] == 102 && s[i + 1] == 108 && s[i + 2] == 105 && s[i + 3] == 112
        && s[i + 4] == 95 && s[i + 5] == 104 && s[i + 6] == 111 && s[i + 7] == 114 && s[i + 8]
        == 105 && s[i + 9] == 122 && s[i + 10] == 111 && s[i + 11] == 110 && s[i + 12] == 116 && s[
        i + 13] == 97 && s[i + 14] == 108 {
        proof {
            assert(tok =~= kw_flip_horizontal());
        }
        TokenKind::FlipHorizontal
    } else if tl == 13 && s[i] == 102 && s[i + 1] == 108 && s[i + 2] == 105 && s[i + 3] == 112
        && s[i + 4] == 95 && s[i + 5] == 118 && s[i + 6] == 101 && s[i + 7] == 114 && s[i + 8]
        == 116 && s[i + 9] == 105 && s[i + 10] == 99 && s[i + 11] == 97 && s[i + 12] == 108 {
        proof {
            assert(tok =~= kw_flip_vertical());
        }
        TokenKind::FlipVertical
    } else if tl == 6 && s[i] == 114 && s[i + 1] == 101 && s[i + 2] == 115 && s[i + 3] == 105 && s[
        i + 4] == 122 && s[i + 5] == 101 {
        proof {
            assert(tok =~= kw_resize());
        }
        TokenKind::Resize
    } else if tl == 4 && s[i] == 99 && s[i + 1] == 114 && s[i + 2] == 111 && s[i + 3] == 112 {
        proof {
            assert(tok =~= kw_crop());
        }
        TokenKind::Crop
    } else {
        proof {
            if tok == kw_blur() {
                assert(tok.len() == 4 && tok[0] == 98 && tok[1] == 108 && tok[2] == 117 && tok[3]
                    == 114);
            }
            if tok == kw_flip_horizontal() {
                assert(tok.len() == 15 && tok[0] == 102 && tok[1] == 108 && tok[2] == 105 && tok[3]
                    == 112 && tok[4] == 95 && tok[5] == 104 && tok[6] == 111 && tok[7] == 114
                    && tok[8] == 105 && tok[9] == 122 && tok[10] == 111 && tok[11] == 110 && tok[12]
                    == 116 && tok[13] == 97 && tok[14] == 108);
            }
            if tok == kw_flip_vertical() {
                assert(tok.len() == 13 && tok[0] == 102 && tok[1] == 108 && tok[2] == 105 && tok[3]
                    == 112 && tok[4] == 95 && tok[5] == 118 && tok[6] == 101 && tok[7] == 114
                    && tok[8] == 116 && tok[9] == 105 && tok[10] == 99 && tok[11] == 97 && tok[12]
                    == 108);
            }
            if tok == kw_resize() {
                assert(tok.len() == 6 && tok[0] == 114 && tok[1] == 101 && tok[2] == 115 && tok[3]
                    == 105 && tok[4] == 122 && tok[5] == 101);
            }
            if tok == kw_crop() {
                assert(tok.len() == 4 && tok[0] == 99 && tok[1] == 114 && tok[2] == 111 && tok[3]
                    == 112);
            }
        }
        TokenKind::Unknown
    }
}

/// Where the argument (or separator) token after position `p` starts, after
/// the insignificant whitespace.
pub open spec fn arg_start(s: Seq<u8>, p: int) -> int {
    p + ws_count(s.skip(p))
}

/// Where the argument token after position `p` ends.
pub open spec fn arg_end(s: Seq<u8>, p: int) -> int {
    arg_start(s, p) + token_len(s.skip(arg_start(s, p)))
}

/// The argument token after position `p`.
pub open spec fn arg_token(s: Seq<u8>, p: int) -> Seq<u8> {
    s.subrange(arg_start(s, p), arg_end(s, p))
}

/// Whether a nonempty run of decimal digits stands after position `p`.
pub open spec fn arg_is_numeric(s: Seq<u8>, p: int) -> bool {
    arg_end(s, p) > arg_start(s, p) && all_digits(arg_token(s, p))
}

/// Value of the numeric argument after position `p`.
pub open spec fn arg_val(s: Seq<u8>, p: int) -> int {
    digits_val(arg_token(s, p))
}

/// Whether the statement separator `;` stands after position `p`, past the
/// insignificant whitespace.
pub open spec fn sep_ok(s: Seq<u8>, p: int) -> bool {
    arg_start(s, p) < s.len() && s[arg_start(s, p)] == 59
}

pub open spec fn perr(pos: int, kind: ParseErrorKind) -> Result<Seq<Operation>, ParseError> {
    Err(ParseError { pos: pos as usize, kind })
}

/// The shape of a recognized statement: which operation it builds, and
/// through `arity` how many numeric arguments it takes.
#[derive(Clone, Copy)]
pub enum StmtShape {
    BlurStmt,
    FlipHorizontalStmt,
    FlipVerticalStmt,
    ResizeStmt,
    CropStmt,
}

/// How many numeric arguments a statement of this shape takes.
pub open spec fn arity(shape: StmtShape) -> int {
    match shape {
        StmtShape::BlurStmt => 1,
        StmtShape::FlipHorizontalStmt => 0,
        StmtShape::FlipVerticalStmt => 0,
        StmtShape::ResizeStmt => 2,
        StmtShape::CropStmt => 4,
    }
}

/// The operation a statement of this shape builds from its arguments.
pub open spec fn build_op(shape: StmtShape, args: Seq<u32>) -> Operation {
    match shape {
        StmtShape::BlurStmt => Operation::Blur(args[0]),
        StmtShape::FlipHorizontalStmt => Operation::FlipHorizontal,
        StmtShape::FlipVerticalStmt => Operation::FlipVertical,
        StmtShape::ResizeStmt => Operation::Resize(args[0], args[1]),
        StmtShape::CropStmt => Operation::Crop(args[0], args[1], args[2], args[3]),
    }
}

/// The grammar: the suffix of `s` that starts at `i` is a flat sequence of
/// statements, each `<name> <args...>` closed by a mandatory `;`, with
/// insignificant whitespace between tokens. Yields the operations in script
/// order, or the first offending statement's position and fault.
pub open spec fn parse_from(s: Seq<u8>, i: int) -> Result<Seq<Operation>, ParseError>
    decreases s.len() - i, 1int,
    when 0 <= i <= s.len()
{
    proof {
        lemma_ws_count_le(s.skip(i));
        lemma_token_len_le(s.skip(i + ws_count(s.skip(i))));
    }
    let st = i + ws_count(s.skip(i));
    if st >= s.len() {
        Ok(Seq::empty())
    } else {
        let tl = token_len(s.skip(st));
        if tl == 0 {
            perr(st, ParseErrorKind::EmptyStatement)
        } else {
            let tok = s.subrange(st, st + tl);
            let p = st + tl;
            if tok == kw_flip_horizontal() {
                parse_stmt_tail(s, st, p, StmtShape::FlipHorizontalStmt, seq![])
            } else if tok == kw_flip_vertical() {
                parse_stmt_tail(s, st, p, StmtShape::FlipVerticalStmt, seq![])
            } else if tok == kw_blur() {
                parse_stmt_tail(s, st, p, StmtShape::BlurStmt, seq![])
            } else if tok == kw_resize() {
                parse_stmt_tail(s, st, p, StmtShape::ResizeStmt, seq![])
            } else if tok == kw_crop() {
                parse_stmt_tail(s, st, p, StmtShape::CropStmt, seq![])
            } else {
                perr(st, ParseErrorKind::UnknownOperation)
            }
        }
    }
}

/// Parses the numeric arguments still owed to the statement that started at
/// `st`, then its mandatory `;`, then the rest of the script.
pub open spec fn parse_stmt_tail(
    s: Seq<u8>,
    st: int,
    p: int,
    shape: StmtShape,
    args: Seq<u32>,
) -> Result<Seq<Operation>, ParseError>
    decreases s.len() - p, 0int,
    when 0 <= p <= s.len()
{
    proof {
        lemma_ws_count_le(s.skip(p));
        lemma_token_len_le(s.skip(arg_start(s, p)));
    }
    if args.len() >= arity(shape) {
        if sep_ok(s, p) {
            match parse_from(s, arg_start(s, p) + 1) {
                Ok(rest) => Ok(seq![build_op(shape, args)] + rest),
                Err(e) => Err(e),
            }
        } else {
            perr(st, ParseErrorKind::MissingSeparator)
        }
    } else if !arg_is_numeric(s, p) {
        perr(st, ParseErrorKind::InvalidNumber)
    } else if arg_val(s, p) > u32::MAX as int {
        perr(st, ParseErrorKind::NumberOutOfRange)
    } else {
        parse_stmt_tail(s, st, arg_end(s, p), shape, args.push(arg_val(s, p) as u32))
    }
}

/// What a whole script means: the operation sequence it denotes, or its
/// first fault. Parsing is a function of the script text and nothing else.
pub open spec fn spec_parse(s: Seq<u8>) -> Result<Seq<Operation>, ParseError> {
    parse_from(s, 0)
}

/// Parsing is a pure function of the input text: scripts with equal bytes
/// denote equal operation sequences (or equal faults).
pub proof fn lemma_parse_deterministic(s1: Seq<u8>, s2: Seq<u8>)
    requires
        s1 == s2,
    ensures
        spec_parse(s1) == spec_parse(s2),
{
}

/// Reads the numeric argument that starts after position `p`: its value and
/// the position just past it, or what was wrong with it.
fn parse_arg(s: &[u8], p: usize) -> (r: Result<(u32, usize), ParseErrorKind>)
    requires
        p <= s@.len(),
    ensures
        match r {
            Ok(vn) => {
                &&& arg_is_numeric(s@, p as int)
                &&& arg_val(s@, p as int) == vn.0 as int
                &&& vn.1 as int == arg_end(s@, p as int)
                &&& p <= vn.1 <= s@.len()
            },
            Err(k) => {
                &&& k == ParseErrorKind::InvalidNumber || k == ParseErrorKind::NumberOutOfRange
                &&& (k == ParseErrorKind::InvalidNumber <==> !arg_is_numeric(s@, p as int))
                &&& (k == ParseErrorKind::NumberOutOfRange <==> arg_is_numeric(s@, p as int)
                    && arg_val(s@, p as int) > u32::MAX as int)
            },
        },
{
    let q = skip_ws(s, p);
    let j = token_end(s, q);
    let ghost tok = arg_token(s@, p as int);
    proof {
        assert(q as int == arg_start(s@, p as int));
        assert(j as int == arg_end(s@, p as int));
        assert(tok =~= s@.subrange(q as int, j as int));
    }
    if j == q {
        return Err(ParseErrorKind::InvalidNumber);
    }
    let mut k = q;
    while k < j
        invariant
            q <= k <= j <= s@.len(),
            q as int == arg_start(s@, p as int),
            j as int == arg_end(s@, p as int),
            tok == s@.subrange(q as int, j as int),
            forall|t: int| q <= t < k ==> is_digit(#[trigger] s@[t]),
        decreases j - k,
    {
        let b = s[k];
        if !(48 <= b && b <= 57) {
            proof {
                assert(b == s@[k as int]);
                assert(!is_digit(s@[k as int]));
                assert(tok.len() == j - q);
                assert(0 <= k as int - q as int && (k as int - q as int) < (j as int - q as int));
                assert(tok[k as int - q as int] == s@[k as int]);
                assert(!is_digit(tok[k as int - q as int]));
                assert(!all_digits(tok));
            }
            return Err(ParseErrorKind::InvalidNumber);
        }
        k = k + 1;
    }
    proof {
        assert(all_digits(tok)) by {
            assert(forall|t: int| 0 <= t < tok.len() ==> #[trigger] tok[t] == s@[q + t]);
        }
        lemma_digits_val_nonneg(tok);
    }
    let mut acc: u64 = 0;
    let mut over = false;
    k = q;
    while k < j
        invariant
            q <= k <= j <= s@.len(),
            forall|t: int| q <= t < j ==> is_digit(#[trigger] s@[t]),
            !over ==> acc as int == digits_val(s@.subrange(q as int, k as int)) && acc
                <= u32::MAX as u64,
            over ==> digits_val(s@.subrange(q as int, k as int)) > u32::MAX as int,
        decreases j - k,
    {
        let d = s[k] - 48;
        proof {
            assert(s@.subrange(q as int, k as int + 1).drop_last() =~= s@.subrange(
                q as int,
                k as int,
            ));
            assert(s@.subrange(q as int, k as int + 1).last() == s@[k as int]);
            assert(all_digits(s@.subrange(q as int, k as int)));
            lemma_digits_val_nonneg(s@.subrange(q as int, k as int));
        }
        if over {
            proof {
                let v = digits_val(s@.subrange(q as int, k as int));
                assert(v * 10 >= v) by (nonlinear_arith)
                    requires v >= 0,
                ;
            }
        } else {
            let next = acc * 10 + (d as u64);
            if next > 4294967295 {
                over = true;
            } else {
                acc = next;
            }
        }
        k = k + 1;
    }
    proof {
        assert(s@.subrange(q as int, j as int) == tok);
    }
    if over {
        Err(ParseErrorKind::NumberOutOfRange)
    } else {
        Ok((acc as u32, j))
    }
}


/// Looks for the mandatory statement separator after position `p`; yields the
/// position just past it.
fn expect_sep(s: &[u8], p: usize) -> (r: Option<usize>)
    requires
        p <= s@.len(),
    ensures
        (r is Some) == sep_ok(s@, p as int),
        r is Some ==> r->0 as int == arg_start(s@, p as int) + 1 && p < r->0 <= s@.len(),
{
    let q = skip_ws(s, p);
    if q < s.len() && s[q] == 59 {
        Some(q + 1)
    } else {
        None
    }
}

/// How many numeric arguments a statement of this shape takes.
fn arity_of(shape: StmtShape) -> (n: usize)
    ensures
        n as int == arity(shape),
{
    match shape {
        StmtShape::BlurStmt => 1,
        StmtShape::FlipHorizontalStmt => 0,
        StmtShape::FlipVerticalStmt => 0,
        StmtShape::ResizeStmt => 2,
        StmtShape::CropStmt => 4,
    }
}

/// Builds the operation a statement denotes from its parsed arguments.
fn make_op(shape: StmtShape, args: &Vec<u32>) -> (op: Operation)
    requires
        args@.len() >= arity(shape),
    ensures
        op == build_op(shape, args@),
{
    match shape {
        StmtShape::BlurStmt => Operation::Blur(args[0]),
        StmtShape::FlipHorizontalStmt => Operation::FlipHorizontal,
        StmtShape::FlipVerticalStmt => Operation::FlipVertical,
        StmtShape::ResizeStmt => Operation::Resize(args[0], args[1]),
        StmtShape::CropStmt => Operation::Crop(args[0], args[1], args[2], args[3]),
    }
}

/// Parses the arguments and separator owed to the statement that started at
/// `st`, then the rest of the script, appending the operations to `acc`.
fn parse_tail(
    s: &[u8],
    st: usize,
    p: usize,
    shape: StmtShape,
    args: Vec<u32>,
    acc: &mut Vec<Operation>,
) -> (r: Result<(), ParseError>)
    requires
        p <= s@.len(),
    ensures
        (r is Ok) == (parse_stmt_tail(s@, st as int, p as int, shape, args@) is Ok),
        r is Ok ==> final(acc)@ == old(acc)@ + parse_stmt_tail(
            s@,
            st as int,
            p as int,
            shape,
            args@,
        )->Ok_0,
        r is Err ==> r->Err_0 == parse_stmt_tail(s@, st as int, p as int, shape, args@)->Err_0,
    decreases s@.len() - p, 0int,
{
    let need = arity_of(shape);
    if args.len() >= need {
        match expect_sep(s, p) {
            Some(next) => {
                let op = make_op(shape, &args);
                acc.push(op);
                let ghost mid = acc@;
                let r = parse_tail_rest(s, next, acc);
                proof {
                    assert(mid =~= old(acc)@ + seq![op]);
                    if parse_from(s@, next as int) is Ok {
                        let rest = parse_from(s@, next as int)->Ok_0;
                        assert((old(acc)@ + seq![op]) + rest =~= old(acc)@ + (seq![op] + rest));
                    }
                }
                r
            }
            None => Err(ParseError { pos: st, kind: ParseErrorKind::MissingSeparator }),
        }
    } else {
        match parse_arg(s, p) {
            Ok(vn) => {
                let mut args2 = args;
                args2.push(vn.0);
                parse_tail(s, st, vn.1, shape, args2, acc)
            }
            Err(k) => Err(ParseError { pos: st, kind: k }),
        }
    }
}

/// Parses the statement sequence that starts at `i`, appending the
/// operations to `acc`.
fn parse_tail_rest(s: &[u8], i: usize, acc: &mut Vec<Operation>) -> (r: Result<(), ParseError>)
    requires
        i <= s@.len(),
    ensures
        match parse_from(s@, i as int) {
            Ok(ops) => r is Ok && final(acc)@ == old(acc)@ + ops,
            Err(e) => r is Err && r->Err_0 == e,
        },
    decreases s@.len() - i, 1int,
{
    let st = skip_ws(s, i);
    if st == s.len() {
        proof {
            assert(old(acc)@ + Seq::<Operation>::empty() =~= old(acc)@);
        }
        return Ok(());
    }
    let j = token_end(s, st);
    let tl = j - st;
    if tl == 0 {
        return Err(ParseError { pos: st, kind: ParseErrorKind::EmptyStatement });
    }
    let shape = match classify_token(s, st, tl) {
        TokenKind::Blur => StmtShape::BlurStmt,
        TokenKind::FlipHorizontal => StmtShape::FlipHorizontalStmt,
        TokenKind::FlipVertical => StmtShape::FlipVerticalStmt,
        TokenKind::Resize => StmtShape::ResizeStmt,
        TokenKind::Crop => StmtShape::CropStmt,
        TokenKind::Unknown => {
            return Err(ParseError { pos: st, kind: ParseErrorKind::UnknownOperation });
        }
    };
    parse_tail(s, st, j, shape, Vec::new(), acc)
}

/// Turns a script into the ordered operation sequence it denotes. The result
/// is exactly what the grammar [`spec_parse`] assigns to the bytes: the
/// operations in script order, or the first offending statement's position
/// and fault. Statement order is preserved exactly.
pub fn parse_image_operations(script: &[u8]) -> (r: Result<Vec<Operation>, ParseError>)
    ensures
        (r is Ok) == (spec_parse(script@) is Ok),
        r is Ok ==> r->Ok_0@ == spec_parse(script@)->Ok_0,
        r is Err ==> r->Err_0 == spec_parse(script@)->Err_0,
{
    let mut ops: Vec<Operation> = Vec::new();
    match parse_tail_rest(script, 0, &mut ops) {
        Ok(_) => {
            proof {
                if spec_parse(script@) is Ok {
                    assert(Seq::<Operation>::empty() + spec_parse(script@)->Ok_0 =~= spec_parse(
                        script@,
                    )->Ok_0);
                }
            }
            Ok(ops)
        }
        Err(e) => Err(e),
    }
}


} // verus!
