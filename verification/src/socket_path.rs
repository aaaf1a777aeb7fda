//! Where the agent socket lies. Paths are byte strings, as they are on Unix.

use vstd::prelude::*;
use vstd::slice::slice_to_vec;

verus! {

/// Separates the parts of a path.
pub const SEPARATOR: u8 = 47;

/// What the name of the agent socket starts with: `agent.`
pub const NAME_PREFIX: [u8; 6] = [97, 103, 101, 110, 116, 46];

/// Digits of a natural number in base ten.
pub open spec fn digits(n: nat) -> Seq<u8>
    decreases n,
{
    if n < 10 {
        seq![(48 + n) as u8]
    } else {
        digits(n / 10).push((48 + n % 10) as u8)
    }
}

/// Text of an integer in base ten.
pub open spec fn decimal(n: int) -> Seq<u8> {
    if n < 0 {
        seq![45u8] + digits((-n) as nat)
    } else {
        digits(n as nat)
    }
}

/// Path of the relative `name` in the directory `dir`.
pub open spec fn join(dir: Seq<u8>, name: Seq<u8>) -> Seq<u8> {
    if dir.len() == 0 || dir.last() == SEPARATOR {
        dir + name
    } else {
        dir.push(SEPARATOR) + name
    }
}

/// Path of the agent socket of process `pid`: `agent.PID` in the runtime directory.
pub open spec fn agent_socket_path(runtime_dir: Seq<u8>, pid: i32) -> Seq<u8> {
    join(runtime_dir, NAME_PREFIX@ + decimal(pid as int))
}

/// Writes the digits of a number.
fn push_digits(text: &mut Vec<u8>, n: u32)
    ensures
        final(text)@ == old(text)@ + digits(n as nat),
    decreases n,
{
    if n >= 10 {
        push_digits(text, n / 10);
    }
    text.push(48 + (n % 10) as u8);
    assert(text@ =~= old(text)@ + digits(n as nat));
}

/// Writes an integer in base ten.
fn decimal_text(n: i32) -> (text: Vec<u8>)
    ensures
        text@ == decimal(n as int),
{
    let mut text: Vec<u8> = Vec::new();
    if n < 0 {
        text.push(45);
        push_digits(&mut text, (-(n as i64)) as u32);
    } else {
        push_digits(&mut text, n as u32);
    }
    assert(text@ =~= decimal(n as int));
    text
}

/// Computes the path of the agent socket of process `pid`.
pub fn socket_path(runtime_dir: &[u8], pid: i32) -> (path: Vec<u8>)
    ensures
        path@ == agent_socket_path(runtime_dir@, pid),
{
    let mut path = slice_to_vec(runtime_dir);
    let len = path.len();
    if len > 0 && path[len - 1] != SEPARATOR {
        path.push(SEPARATOR);
    }
    let mut name = slice_to_vec(&NAME_PREFIX);
    let mut text = decimal_text(pid);
    name.append(&mut text);
    path.append(&mut name);
    path
}

/// Digits are at least one, each between `0` and `9`.
proof fn lemma_digits_are_digits(n: nat)
    ensures
        digits(n).len() > 0,
        forall|i: int| 0 <= i < digits(n).len() ==> 48 <= #[trigger] digits(n)[i] <= 57,
    decreases n,
{
    if n >= 10 {
        lemma_digits_are_digits(n / 10);
    }
}

/// Different numbers have different digits.
proof fn lemma_digits_differ(a: nat, b: nat)
    requires
        digits(a) == digits(b),
    ensures
        a == b,
    decreases a,
{
    lemma_digits_are_digits(a / 10);
    lemma_digits_are_digits(b / 10);
    assert(digits(a).last() == 48 + a % 10);
    assert(digits(b).last() == 48 + b % 10);
    assert(digits(a).len() == 1 <==> a < 10);
    assert(digits(b).len() == 1 <==> b < 10);
    if a >= 10 && b >= 10 {
        assert(digits(a).drop_last() =~= digits(a / 10));
        assert(digits(b).drop_last() =~= digits(b / 10));
        lemma_digits_differ(a / 10, b / 10);
    }
}

/// Each process has a socket of its own: in one runtime directory, only the same process
/// identifier gives the same path.
pub proof fn law_paths_differ(runtime_dir: Seq<u8>, a: i32, b: i32)
    requires
        agent_socket_path(runtime_dir, a) == agent_socket_path(runtime_dir, b),
    ensures
        a == b,
{
    let path = agent_socket_path(runtime_dir, a);
    let start = if runtime_dir.len() == 0 || runtime_dir.last() == SEPARATOR {
        runtime_dir.len() + NAME_PREFIX@.len()
    } else {
        runtime_dir.len() + 1 + NAME_PREFIX@.len()
    };
    assert(path.skip(start as int) =~= decimal(a as int));
    assert(path.skip(start as int) =~= decimal(b as int));
    let m = if a < 0 { -a } else { a as int };
    let n = if b < 0 { -b } else { b as int };
    lemma_digits_are_digits(m as nat);
    lemma_digits_are_digits(n as nat);
    assert(decimal(a as int)[0] == decimal(b as int)[0]);
    if a < 0 {
        assert(decimal(a as int).skip(1) =~= digits(m as nat));
        assert(decimal(b as int).skip(1) =~= digits(n as nat));
    }
    lemma_digits_differ(m as nat, n as nat);
}

/// The number that a sequence of digits stands for.
pub open spec fn number(text: Seq<u8>) -> int
    decreases text.len(),
{
    if text.len() == 0 {
        0
    } else {
        number(text.drop_last()) * 10 + (text.last() - 48)
    }
}

/// Whether `text` is a number as it is commonly written: digits, the first of which is zero only
/// where it is the only one.
pub open spec fn is_plain_number(text: Seq<u8>) -> bool {
    &&& text.len() > 0
    &&& forall|i: int| 0 <= i < text.len() ==> 48 <= #[trigger] text[i] <= 57
    &&& text.len() > 1 ==> text[0] != 48
}

/// Reading the digits of a number gives back the number, and they are commonly written.
pub proof fn law_digits_read_back(n: nat)
    ensures
        number(digits(n)) == n,
        is_plain_number(digits(n)),
        n > 0 ==> digits(n)[0] != 48,
    decreases n,
{
    lemma_digits_are_digits(n);
    if n >= 10 {
        law_digits_read_back(n / 10);
        lemma_digits_are_digits(n / 10);
        assert(digits(n).drop_last() =~= digits(n / 10));
        assert(digits(n)[0] == digits(n / 10)[0]);
    } else {
        assert(digits(n).drop_last() =~= Seq::<u8>::empty());
        assert(number(Seq::<u8>::empty()) == 0);
    }
    assert(digits(n).last() == 48 + n % 10);
}

/// The text of an integer is its absolute value as it is commonly written, after a minus where it
/// is negative.
pub proof fn law_decimal_reads_back(n: int)
    ensures
        n >= 0 ==> is_plain_number(decimal(n)) && number(decimal(n)) == n,
        n < 0 ==> decimal(n)[0] == 45 && is_plain_number(decimal(n).skip(1)) && number(
            decimal(n).skip(1),
        ) == -n,
{
    if n >= 0 {
        law_digits_read_back(n as nat);
    } else {
        law_digits_read_back((-n) as nat);
        assert(decimal(n).skip(1) =~= digits((-n) as nat));
    }
}

/// The socket lies in the runtime directory: its path is the directory, a slash unless the
/// directory is empty or ends in one, `agent.` and the process identifier.
pub proof fn law_path_is_in_runtime_dir(runtime_dir: Seq<u8>, pid: i32)
    ensures
        ({
            let path = agent_socket_path(runtime_dir, pid);
            let n = runtime_dir.len() as int;
            let slash: int = if n == 0 || runtime_dir[n - 1] == 47 { 0 } else { 1 };
            &&& path.len() > n + slash + 6
            &&& path.take(n) == runtime_dir
            &&& slash == 1 ==> path[n] == 47
            &&& path.subrange(n + slash, n + slash + 6) == seq![97u8, 103, 101, 110, 116, 46]
            &&& path.skip(n + slash + 6) == decimal(pid as int)
        }),
{
    let path = agent_socket_path(runtime_dir, pid);
    let n = runtime_dir.len() as int;
    let slash: int = if n == 0 || runtime_dir[n - 1] == 47 { 0 } else { 1 };
    let m: int = if pid < 0 { -pid } else { pid as int };
    lemma_digits_are_digits(m as nat);
    assert(path.take(n) =~= runtime_dir);
    assert(path.subrange(n + slash, n + slash + 6) =~= seq![97u8, 103, 101, 110, 116, 46]);
    assert(path.skip(n + slash + 6) =~= decimal(pid as int));
}

} // verus!
