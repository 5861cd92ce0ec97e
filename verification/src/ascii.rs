//! The written form of a routine, and reading it back.
//!
//! A routine is written as one instruction after another. An instruction is
//! a mnemonic (`c`, `ld`, `rd`, `b` or `i`), a sign, a decimal number and a
//! semicolon, as in `ld -12000;`. Blanks and line breaks may stand between
//! any two of these parts.

use vstd::prelude::*;
use vstd::string::*;
use crate::bytecode::ByteCode;
use crate::utils::{decimal, digits};

verus! {

/// The kinds of character that come in runs.
#[derive(Debug, Clone, Copy, PartialEq, Eq, Structural)]
pub enum Class {
    /// Blank, tab, line feed or carriage return.
    Space,
    /// A lower-case letter.
    Letter,
    /// A decimal digit.
    Digit,
}

/// Whether the byte is a character of the class.
pub open spec fn in_class(class: Class, byte: u8) -> bool {
    match class {
        Class::Space => byte == 32 || byte == 9 || byte == 10 || byte == 13,
        Class::Letter => 97 <= byte <= 122,
        Class::Digit => 48 <= byte <= 57,
    }
}

/// Where the run of characters of the class that starts at `from` ends: the
/// first position at or after `from` that holds another character, or the
/// end of the text.
pub open spec fn run_end(text: Seq<u8>, from: int, class: Class) -> int
    decreases text.len() - from,
{
    if 0 <= from < text.len() && in_class(class, text[from]) {
        run_end(text, from + 1, class)
    } else {
        from
    }
}

/// The number that a run of digits stands for.
pub open spec fn value(digits: Seq<u8>) -> nat
    decreases digits.len(),
{
    if digits.len() == 0 {
        0
    } else {
        value(digits.drop_last()) * 10 + (if in_class(Class::Digit, digits.last()) {
            (digits.last() - 48) as nat
        } else {
            0
        })
    }
}

/// The instruction for a mnemonic, a sign and a number.
///
/// `c` counts ticks and takes any number up to `u32::MAX`, whatever the
/// sign. `ld`, `rd`, `b` and `i` set the voltage of the left drive, the
/// right drive, the belt and the intake to the signed number, whose size
/// may be up to `i32::MAX`. Anything else is no instruction.
pub open spec fn instruction(word: Seq<u8>, negative: bool, size: nat) -> Option<ByteCode> {
    let voltage = if negative {
        (-size) as i32
    } else {
        size as i32
    };
    if word == seq![99u8] {
        if size <= u32::MAX {
            Some(ByteCode::Cycle(size as u32))
        } else {
            None
        }
    } else if size > i32::MAX {
        None
    } else if word == seq![108u8, 100u8] {
        Some(ByteCode::LeftDrive { voltage })
    } else if word == seq![114u8, 100u8] {
        Some(ByteCode::RightDrive { voltage })
    } else if word == seq![98u8] {
        Some(ByteCode::Belt { voltage })
    } else if word == seq![105u8] {
        Some(ByteCode::Intake { voltage })
    } else {
        None
    }
}

/// The instruction written at `from`, with the position just after its
/// semicolon; nothing if what stands there is not an instruction.
pub open spec fn statement(text: Seq<u8>, from: int) -> Option<(ByteCode, int)> {
    let word_end = run_end(text, from, Class::Letter);
    let sign_at = run_end(text, word_end, Class::Space);
    let digits_from = run_end(text, sign_at + 1, Class::Space);
    let digits_to = run_end(text, digits_from, Class::Digit);
    let semicolon_at = run_end(text, digits_to, Class::Space);
    if !(0 <= sign_at < text.len() && (text[sign_at] == 43 || text[sign_at] == 45)) {
        None
    } else if digits_to == digits_from {
        None
    } else if !(0 <= semicolon_at < text.len() && text[semicolon_at] == 59) {
        None
    } else {
        match instruction(
            text.subrange(from, word_end),
            text[sign_at] == 45,
            value(text.subrange(digits_from, digits_to)),
        ) {
            None => None,
            Some(inst) => Some((inst, semicolon_at + 1)),
        }
    }
}

/// The instructions written from `from` to the end of the text, or nothing
/// if anything but well-formed instructions stands there.
pub open spec fn parsed_from(text: Seq<u8>, from: int) -> Option<Seq<ByteCode>>
    decreases text.len() - from,
{
    let start = run_end(text, from, Class::Space);
    if start >= text.len() {
        Some(Seq::empty())
    } else {
        match statement(text, start) {
            None => None,
            Some((inst, next)) => if next <= from {
                None
            } else {
                match parsed_from(text, next) {
                    None => None,
                    Some(rest) => Some(seq![inst] + rest),
                }
            },
        }
    }
}

/// The routine that the text is the written form of, in playing order, or
/// nothing if the text is malformed.
pub open spec fn parsed(text: Seq<u8>) -> Option<Seq<ByteCode>> {
    parsed_from(text, 0)
}

/// A run never ends before it starts or beyond the text, everything in it
/// is of the class, and what follows it is not.
pub proof fn lemma_run_end(text: Seq<u8>, from: int, class: Class)
    requires
        0 <= from <= text.len(),
    ensures
        from <= run_end(text, from, class) <= text.len(),
        forall|i: int| from <= i < run_end(text, from, class) ==> in_class(class, #[trigger] text[i]),
        run_end(text, from, class) < text.len() ==> !in_class(
            class,
            text[run_end(text, from, class)],
        ),
    decreases text.len() - from,
{
    if from < text.len() && in_class(class, text[from]) {
        lemma_run_end(text, from + 1, class);
    }
}

fn is_in_class(class: Class, byte: u8) -> (yes: bool)
    ensures
        yes == in_class(class, byte),
{
    match class {
        Class::Space => byte == 32 || byte == 9 || byte == 10 || byte == 13,
        Class::Letter => 97 <= byte && byte <= 122,
        Class::Digit => 48 <= byte && byte <= 57,
    }
}

/// Where the run of characters of the class that starts at `from` ends.
fn skip(text: &[u8], from: usize, class: Class) -> (end: usize)
    requires
        from <= text.len(),
    ensures
        end == run_end(text@, from as int, class),
        from <= end <= text.len(),
{
    let mut end = from;
    while end < text.len() && is_in_class(class, text[end])
        invariant
            from <= end <= text.len(),
            run_end(text@, end as int, class) == run_end(text@, from as int, class),
        decreases text.len() - end,
    {
        end += 1;
    }
    end
}

/// The number written in `text` from `from` to `to`, unless it is above
/// `u32::MAX`.
fn read_number(text: &[u8], from: usize, to: usize) -> (number: Option<u64>)
    requires
        from <= to <= text.len(),
        forall|i: int| from <= i < to ==> in_class(Class::Digit, #[trigger] text@[i]),
    ensures
        match number {
            Some(n) => n == value(text@.subrange(from as int, to as int)) && n <= u32::MAX,
            None => value(text@.subrange(from as int, to as int)) > u32::MAX,
        },
{
    let mut n: u64 = 0;
    let mut i = from;
    assert(text@.subrange(from as int, from as int) =~= Seq::<u8>::empty());
    while i < to
        invariant
            from <= i <= to <= text.len(),
            forall|k: int| from <= k < to ==> in_class(Class::Digit, #[trigger] text@[k]),
            n == value(text@.subrange(from as int, i as int)),
            n <= u32::MAX,
        decreases to - i,
    {
        let digit = (text[i] - 48) as u64;
        proof {
            let longer = text@.subrange(from as int, i + 1);
            assert(longer.drop_last() =~= text@.subrange(from as int, i as int));
            assert(longer.last() == text@[i as int]);
            assert(value(longer) == n * 10 + digit);
        }
        n = n * 10 + digit;
        i += 1;
        if n > 4294967295 {
            proof {
                lemma_value_grows(text@, from as int, i as int, to as int);
            }
            return None;
        }
    }
    Some(n)
}

/// A longer run of digits does not stand for a smaller number.
proof fn lemma_value_grows(text: Seq<u8>, from: int, mid: int, to: int)
    requires
        0 <= from <= mid <= to <= text.len(),
    ensures
        value(text.subrange(from, mid)) <= value(text.subrange(from, to)),
    decreases to - mid,
{
    if mid < to {
        lemma_value_grows(text, from, mid, to - 1);
        assert(text.subrange(from, to).drop_last() =~= text.subrange(from, to - 1));
    }
}

/// The instruction for the mnemonic written from `from` to `to`, a sign
/// and a number.
fn build(text: &[u8], from: usize, to: usize, negative: bool, size: u64) -> (inst: Option<
    ByteCode,
>)
    requires
        from <= to <= text.len(),
        size <= u32::MAX,
    ensures
        inst == instruction(text@.subrange(from as int, to as int), negative, size as nat),
{
    let ghost word = text@.subrange(from as int, to as int);
    let one = to - from == 1;
    let two = to - from == 2;
    proof {
        if one {
            assert(word =~= seq![text@[from as int]]);
        }
        if two {
            assert(word =~= seq![text@[from as int], text@[from + 1]]);
        }
        assert(seq![99u8].len() == 1 && seq![98u8].len() == 1 && seq![105u8].len() == 1);
        assert(seq![108u8, 100u8].len() == 2 && seq![114u8, 100u8].len() == 2);
        assert(seq![99u8][0] == 99 && seq![98u8][0] == 98 && seq![105u8][0] == 105);
        assert(seq![108u8, 100u8][0] == 108 && seq![108u8, 100u8][1] == 100);
        assert(seq![114u8, 100u8][0] == 114 && seq![114u8, 100u8][1] == 100);
    }
    if one && text[from] == 99 {
        return Some(ByteCode::Cycle(size as u32));
    }
    if size > 2147483647 {
        return None;
    }
    let voltage: i32 = if negative {
        -(size as i32)
    } else {
        size as i32
    };
    if two && text[from] == 108 && text[from + 1] == 100 {
        Some(ByteCode::LeftDrive { voltage })
    } else if two && text[from] == 114 && text[from + 1] == 100 {
        Some(ByteCode::RightDrive { voltage })
    } else if one && text[from] == 98 {
        Some(ByteCode::Belt { voltage })
    } else if one && text[from] == 105 {
        Some(ByteCode::Intake { voltage })
    } else {
        None
    }
}

/// The instruction written at `from`, with the position just after its
/// semicolon.
fn read_statement(text: &[u8], from: usize) -> (found: Option<(ByteCode, usize)>)
    requires
        from <= text.len(),
    ensures
        match found {
            Some((inst, next)) => statement(text@, from as int) == Some((inst, next as int))
                && from < next <= text.len(),
            None => statement(text@, from as int) is None,
        },
{
    let word_end = skip(text, from, Class::Letter);
    let sign_at = skip(text, word_end, Class::Space);
    if sign_at >= text.len() || !(text[sign_at] == 43 || text[sign_at] == 45) {
        return None;
    }
    let digits_from = skip(text, sign_at + 1, Class::Space);
    let digits_to = skip(text, digits_from, Class::Digit);
    let semicolon_at = skip(text, digits_to, Class::Space);
    if digits_to == digits_from {
        return None;
    }
    if semicolon_at >= text.len() || text[semicolon_at] != 59 {
        return None;
    }
    proof {
        lemma_run_end(text@, digits_from as int, Class::Digit);
    }
    match read_number(text, digits_from, digits_to) {
        None => None,
        Some(size) => match build(text, from, word_end, text[sign_at] == 45, size) {
            None => None,
            Some(inst) => Some((inst, semicolon_at + 1)),
        },
    }
}

/// Reads a written routine. The answer is the routine in playing order, or
/// nothing if the text is malformed.
pub fn parse(text: &[u8]) -> (routine: Option<Vec<ByteCode>>)
    ensures
        match routine {
            Some(list) => parsed(text@) == Some(list@),
            None => parsed(text@) is None,
        },
{
    let mut list: Vec<ByteCode> = Vec::new();
    let mut at: usize = 0;
    loop
        invariant
            at <= text.len(),
            match parsed_from(text@, at as int) {
                Some(rest) => parsed(text@) == Some(list@ + rest),
                None => parsed(text@) is None,
            },
        decreases text.len() - at,
    {
        let start = skip(text, at, Class::Space);
        if start >= text.len() {
            assert(list@ + Seq::<ByteCode>::empty() =~= list@);
            return Some(list);
        }
        match read_statement(text, start) {
            None => {
                return None;
            },
            Some((inst, next)) => {
                proof {
                    if let Some(rest) = parsed_from(text@, next as int) {
                        assert(list@.push(inst) + rest =~= list@ + (seq![inst] + rest));
                    }
                }
                list.push(inst);
                at = next;
            },
        }
    }
}

/// A number with its sign in front, `+` for zero and above.
pub open spec fn signed(v: int) -> Seq<char> {
    if v < 0 {
        "-"@ + digits((-v) as nat)
    } else {
        "+"@ + digits(v as nat)
    }
}

/// The written form of one instruction.
pub open spec fn written(inst: ByteCode) -> Seq<char> {
    match inst {
        ByteCode::Cycle(x) => "c "@ + signed(x as int) + ";"@,
        ByteCode::LeftDrive { voltage } => "ld "@ + signed(voltage as int) + ";"@,
        ByteCode::RightDrive { voltage } => "rd "@ + signed(voltage as int) + ";"@,
        ByteCode::Belt { voltage } => "b "@ + signed(voltage as int) + ";"@,
        ByteCode::Intake { voltage } => "i "@ + signed(voltage as int) + ";"@,
    }
}

/// The written form of a routine: each instruction on a line of its own.
pub open spec fn written_all(routine: Seq<ByteCode>) -> Seq<char>
    decreases routine.len(),
{
    if routine.len() == 0 {
        Seq::empty()
    } else {
        written(routine.first()) + "\n"@ + written_all(routine.skip(1))
    }
}

/// The bytes of a text in which every character is a single byte.
pub open spec fn ascii(chars: Seq<char>) -> Seq<u8> {
    Seq::new(chars.len(), |i: int| chars[i] as u8)
}

/// Whether the instruction can be read back from its written form. The one
/// voltage whose size no positive number matches cannot.
pub open spec fn readable(inst: ByteCode) -> bool {
    match inst {
        ByteCode::Cycle(_) => true,
        ByteCode::LeftDrive { voltage } => voltage > i32::MIN,
        ByteCode::RightDrive { voltage } => voltage > i32::MIN,
        ByteCode::Belt { voltage } => voltage > i32::MIN,
        ByteCode::Intake { voltage } => voltage > i32::MIN,
    }
}

/// The text of a number with its sign in front.
fn sign_and_size(negative: bool, size: u64) -> (text: String)
    ensures
        text@ == (if negative {
            "-"@
        } else {
            "+"@
        }) + digits(size as nat),
{
    let mut text = String::from_str(
        if negative {
            "-"
        } else {
            "+"
        },
    );
    text.append(decimal(size).as_str());
    text
}

/// The text of a voltage with its sign in front.
fn signed_text(voltage: i32) -> (text: String)
    ensures
        text@ == signed(voltage as int),
{
    if voltage < 0 {
        sign_and_size(true, (0 - voltage as i64) as u64)
    } else {
        sign_and_size(false, voltage as u64)
    }
}

impl ByteCode {
    /// The written form of the instruction.
    pub fn to_string(&self) -> (text: String)
        ensures
            text@ == written(*self),
    {
        let (mut text, number) = match self {
            ByteCode::Cycle(x) => (String::from_str("c "), sign_and_size(false, *x as u64)),
            ByteCode::LeftDrive { voltage } => (String::from_str("ld "), signed_text(*voltage)),
            ByteCode::RightDrive { voltage } => (String::from_str("rd "), signed_text(*voltage)),
            ByteCode::Belt { voltage } => (String::from_str("b "), signed_text(*voltage)),
            ByteCode::Intake { voltage } => (String::from_str("i "), signed_text(*voltage)),
        };
        text.append(number.as_str());
        text.append(";");
        text
    }
}

/// The written form of a routine, given in playing order.
pub fn write_routine(routine: &[ByteCode]) -> (text: String)
    ensures
        text@ == written_all(routine@),
{
    let mut text = String::new();
    let mut i: usize = 0;
    assert(routine@.skip(0) =~= routine@);
    while i < routine.len()
        invariant
            i <= routine.len(),
            text@ + written_all(routine@.skip(i as int)) == written_all(routine@),
        decreases routine.len() - i,
    {
        let ghost before = text@;
        let ghost rest = routine@.skip(i as int);
        text.append(routine[i].to_string().as_str());
        text.append("\n");
        proof {
            assert(rest.first() == routine@[i as int]);
            assert(rest.skip(1) =~= routine@.skip(i + 1));
            assert(text@ + written_all(routine@.skip(i + 1)) =~= before + written_all(rest));
        }
        i += 1;
    }
    assert(text@ + Seq::<char>::empty() =~= text@);
    text
}

/// The digits of a number stand for that number.
pub proof fn lemma_digits_read_back(n: nat)
    ensures
        ascii(digits(n)).len() >= 1,
        forall|i: int|
            0 <= i < ascii(digits(n)).len() ==> in_class(Class::Digit, #[trigger] ascii(digits(n))[i]),
        value(ascii(digits(n))) == n,
    decreases n,
{
    let text = ascii(digits(n));
    if n < 10 {
        assert(text =~= seq![(48 + n) as u8]);
        assert(text.drop_last() =~= Seq::<u8>::empty());
        assert(value(text.drop_last()) == 0);
        assert(text.last() == 48 + n);
    } else {
        lemma_digits_read_back(n / 10);
        let front = ascii(digits(n / 10));
        assert(text =~= front.push((48 + n % 10) as u8));
        assert(text.drop_last() =~= front);
        assert(text.last() == 48 + n % 10);
        assert(value(text) == value(front) * 10 + n % 10);
        assert forall|i: int| 0 <= i < text.len() implies in_class(
            Class::Digit,
            #[trigger] text[i],
        ) by {
            if i < front.len() {
                assert(text[i] == front[i]);
            }
        }
    }
}

/// A stretch of characters of one class, followed by another character or
/// by the end of the text, is a whole run.
proof fn lemma_run_stops(text: Seq<u8>, from: int, count: nat, class: Class)
    requires
        0 <= from,
        from + count <= text.len(),
        forall|i: int| from <= i < from + count ==> in_class(class, #[trigger] text[i]),
        from + count == text.len() || !in_class(class, text[from + count]),
    ensures
        run_end(text, from, class) == from + count,
    decreases count,
{
    if count > 0 {
        assert(in_class(class, text[from]));
        lemma_run_stops(text, from + 1, (count - 1) as nat, class);
    }
}

/// A mnemonic, a blank, a sign, the digits of a number and a semicolon are
/// read as the instruction that these three stand for.
proof fn lemma_parts_read_back(
    text: Seq<u8>,
    at: int,
    word: Seq<u8>,
    negative: bool,
    size: nat,
)
    requires
        0 <= at,
        word.len() >= 1,
        forall|i: int| 0 <= i < word.len() ==> in_class(Class::Letter, #[trigger] word[i]),
        at + word.len() + ascii(digits(size)).len() + 3 <= text.len(),
        text.subrange(at, at + word.len() + ascii(digits(size)).len() + 3) == word + seq![32u8]
            + seq![
            if negative {
                45u8
            } else {
                43u8
            },
        ] + ascii(digits(size)) + seq![59u8],
    ensures
        statement(text, at) == match instruction(word, negative, size) {
            Some(inst) => Some((inst, at + word.len() + ascii(digits(size)).len() + 3)),
            None => None,
        },
{
    let number = ascii(digits(size));
    let sign = if negative {
        45u8
    } else {
        43u8
    };
    let total = word.len() + number.len() + 3;
    let piece = word + seq![32u8] + seq![sign] + number + seq![59u8];
    let sign_at = at + word.len() + 1;
    let digits_from = sign_at + 1;
    let digits_to = digits_from + number.len();
    lemma_digits_read_back(size);
    assert forall|i: int| 0 <= i < total implies text[at + i] == #[trigger] piece[i] by {
        assert(text.subrange(at, at + total)[i] == text[at + i]);
    }
    assert forall|i: int| at <= i < at + word.len() implies in_class(
        Class::Letter,
        #[trigger] text[i],
    ) by {
        assert(piece[i - at] == word[i - at]);
    }
    assert(text[at + word.len()] == 32) by {
        assert(piece[word.len() as int] == 32);
    }
    assert(text[sign_at] == sign) by {
        assert(piece[sign_at - at] == sign);
    }
    assert forall|i: int| digits_from <= i < digits_to implies in_class(
        Class::Digit,
        #[trigger] text[i],
    ) && text[i] == number[i - digits_from] by {
        assert(piece[i - at] == number[i - digits_from]);
    }
    assert(text[digits_to] == 59) by {
        assert(piece[total - 1] == 59);
    }
    lemma_run_stops(text, at, word.len(), Class::Letter);
    lemma_run_stops(text, at + word.len(), 1, Class::Space);
    lemma_run_stops(text, digits_from, 0, Class::Space);
    lemma_run_stops(text, digits_from, number.len(), Class::Digit);
    lemma_run_stops(text, digits_to, 0, Class::Space);
    assert(text.subrange(at, at + word.len()) =~= word);
    assert(text.subrange(digits_from, digits_to) =~= number);
}

/// The written form of a readable instruction is read as that
/// instruction, wherever in a text it stands.
pub proof fn lemma_statement_reads_back(text: Seq<u8>, at: int, inst: ByteCode)
    requires
        readable(inst),
        0 <= at,
        at + written(inst).len() <= text.len(),
        text.subrange(at, at + written(inst).len()) == ascii(written(inst)),
    ensures
        statement(text, at) == Some((inst, at + written(inst).len())),
{
    reveal_strlit("c ");
    reveal_strlit("ld ");
    reveal_strlit("rd ");
    reveal_strlit("b ");
    reveal_strlit("i ");
    reveal_strlit("+");
    reveal_strlit("-");
    reveal_strlit(";");
    let (word, amount): (Seq<u8>, int) = match inst {
        ByteCode::Cycle(x) => (seq![99u8], x as int),
        ByteCode::LeftDrive { voltage } => (seq![108u8, 100u8], voltage as int),
        ByteCode::RightDrive { voltage } => (seq![114u8, 100u8], voltage as int),
        ByteCode::Belt { voltage } => (seq![98u8], voltage as int),
        ByteCode::Intake { voltage } => (seq![105u8], voltage as int),
    };
    let negative = amount < 0;
    let size = (if negative {
        -amount
    } else {
        amount
    }) as nat;
    let sign = if negative {
        45u8
    } else {
        43u8
    };
    assert(ascii(written(inst)) =~= word + seq![32u8] + seq![sign] + ascii(digits(size)) + seq![
        59u8,
    ]);
    assert(seq![99u8] != seq![108u8, 100u8] && seq![99u8] != seq![114u8, 100u8]) by {
        assert(seq![99u8].len() == 1 && seq![108u8, 100u8].len() == 2 && seq![114u8, 100u8].len()
            == 2);
    }
    assert(seq![99u8] != seq![98u8] && seq![99u8] != seq![105u8] && seq![98u8] != seq![105u8])
        by {
        assert(seq![99u8][0] == 99 && seq![98u8][0] == 98 && seq![105u8][0] == 105);
    }
    assert(seq![108u8, 100u8] != seq![114u8, 100u8]) by {
        assert(seq![108u8, 100u8][0] == 108 && seq![114u8, 100u8][0] == 114);
    }
    assert(seq![98u8] != seq![108u8, 100u8] && seq![98u8] != seq![114u8, 100u8]) by {
        assert(seq![98u8].len() == 1 && seq![108u8, 100u8].len() == 2 && seq![114u8, 100u8].len()
            == 2);
    }
    assert(instruction(word, negative, size) == Some(inst));
    lemma_parts_read_back(text, at, word, negative, size);
}

/// What is read from a blank on is what is read from just after it.
proof fn lemma_blank_is_skipped(text: Seq<u8>, from: int)
    requires
        0 <= from < text.len(),
        in_class(Class::Space, text[from]),
    ensures
        parsed_from(text, from) == parsed_from(text, from + 1),
{
    let start = run_end(text, from, Class::Space);
    assert(start == run_end(text, from + 1, Class::Space));
    lemma_run_end(text, from + 1, Class::Space);
    if start < text.len() {
        lemma_statement_moves_on(text, start);
    }
}

/// An instruction ends after the place where it starts.
proof fn lemma_statement_moves_on(text: Seq<u8>, from: int)
    requires
        0 <= from <= text.len(),
    ensures
        match statement(text, from) {
            Some((_, next)) => from < next <= text.len(),
            None => true,
        },
{
    let word_end = run_end(text, from, Class::Letter);
    lemma_run_end(text, from, Class::Letter);
    let sign_at = run_end(text, word_end, Class::Space);
    lemma_run_end(text, word_end, Class::Space);
    if sign_at < text.len() {
        let digits_from = run_end(text, sign_at + 1, Class::Space);
        lemma_run_end(text, sign_at + 1, Class::Space);
        let digits_to = run_end(text, digits_from, Class::Digit);
        lemma_run_end(text, digits_from, Class::Digit);
        lemma_run_end(text, digits_to, Class::Space);
    }
}

/// A text that ends with the written form of a routine is read, from where
/// that form starts, as that routine.
proof fn lemma_reads_back_from(text: Seq<u8>, at: int, routine: Seq<ByteCode>)
    requires
        forall|i: int| 0 <= i < routine.len() ==> readable(#[trigger] routine[i]),
        0 <= at <= text.len(),
        text.subrange(at, text.len() as int) == ascii(written_all(routine)),
    ensures
        parsed_from(text, at) == Some(routine),
    decreases routine.len(),
{
    reveal_strlit("\n");
    reveal_strlit("c ");
    reveal_strlit("ld ");
    reveal_strlit("rd ");
    reveal_strlit("b ");
    reveal_strlit("i ");
    let tail_text = text.subrange(at, text.len() as int);
    if routine.len() == 0 {
        assert(tail_text.len() == 0);
        assert(routine =~= Seq::<ByteCode>::empty());
    } else {
        let inst = routine.first();
        let rest = routine.skip(1);
        let size = written(inst).len() as int;
        assert(readable(routine[0]));
        assert(ascii(written_all(routine)) =~= ascii(written(inst)) + seq![10u8] + ascii(
            written_all(rest),
        ));
        assert(tail_text.len() == size + 1 + written_all(rest).len());
        assert(text.subrange(at, at + size) =~= ascii(written(inst))) by {
            assert forall|i: int| 0 <= i < size implies text.subrange(at, at + size)[i] == ascii(
                written(inst),
            )[i] by {
                assert(tail_text[i] == text[at + i]);
            }
        }
        assert(text[at] == ascii(written(inst))[0]) by {
            assert(tail_text[0] == text[at]);
        }
        assert(!in_class(Class::Space, text[at]));
        assert(run_end(text, at, Class::Space) == at);
        lemma_statement_reads_back(text, at, inst);
        let next = at + size;
        assert(text[next] == 10) by {
            assert(tail_text[size] == text[next]);
        }
        assert(text.subrange(next + 1, text.len() as int) =~= ascii(written_all(rest))) by {
            assert forall|i: int| 0 <= i < written_all(rest).len() implies text.subrange(
                next + 1,
                text.len() as int,
            )[i] == ascii(written_all(rest))[i] by {
                assert(tail_text[size + 1 + i] == text[next + 1 + i]);
            }
        }
        assert forall|i: int| 0 <= i < rest.len() implies readable(#[trigger] rest[i]) by {
            assert(rest[i] == routine[i + 1]);
        }
        lemma_reads_back_from(text, next + 1, rest);
        lemma_blank_is_skipped(text, next);
        assert(seq![inst] + rest =~= routine);
    }
}

/// Writing a routine down and reading it again gives the routine back,
/// provided that each of its instructions is readable.
pub proof fn lemma_written_routine_reads_back(routine: Seq<ByteCode>)
    requires
        forall|i: int| 0 <= i < routine.len() ==> readable(#[trigger] routine[i]),
    ensures
        parsed(ascii(written_all(routine))) == Some(routine),
{
    let text = ascii(written_all(routine));
    assert(text.subrange(0, text.len() as int) =~= text);
    lemma_reads_back_from(text, 0, routine);
}

} // verus!
