//! User-picked media files, kept under the hash of their content.

use vstd::prelude::*;
use vstd::string::StringExecFns;

use crate::decimal;
use crate::decimal::u64_text;
use crate::digest;
use crate::digest::hash_file_blake3;
use crate::error;
use crate::error::AppError;
use crate::text::around;

verus! {

/// The quotient rounded to the nearest whole number, a half to the even one.
pub open spec fn rounded(n: int, unit: int) -> int {
    let q = n / unit;
    let r = n % unit;
    if 2 * r < unit || (2 * r == unit && q % 2 == 0) {
        q
    } else {
        q + 1
    }
}

/// The distance between a size and the next one that is told apart from it:
/// sizes are told apart to fifty-three binary digits.
pub open spec fn grain(bytes: nat) -> nat
    decreases bytes,
{
    if bytes < 0x20_0000_0000_0000 {
        1
    } else {
        2 * grain(bytes / 2)
    }
}

/// A size to fifty-three binary digits.
pub open spec fn measured(bytes: nat) -> int {
    rounded(bytes as int, grain(bytes) as int) * grain(bytes)
}

/// The size of a unit: 1024 to the power of one, two, three or four.
pub open spec fn unit_size(unit: int) -> int {
    if unit == 0 {
        0x400
    } else if unit == 1 {
        0x10_0000
    } else if unit == 2 {
        0x4000_0000
    } else {
        0x100_0000_0000
    }
}

/// The name of a unit.
pub open spec fn unit_name(unit: int) -> Seq<char> {
    if unit == 0 {
        "KB"@
    } else if unit == 1 {
        "MB"@
    } else if unit == 2 {
        "GB"@
    } else {
        "TB"@
    }
}

/// The unit that a size is told in: the largest that it fills, and the last for
/// all that fill it.
pub open spec fn unit_of(size: int) -> int {
    if size < unit_size(1) {
        0
    } else if size < unit_size(2) {
        1
    } else if size < unit_size(3) {
        2
    } else {
        3
    }
}

/// A size in words: binary steps, one decimal below a hundred and none above.
pub open spec fn size_text(bytes: nat) -> Seq<char> {
    if bytes < 1024 {
        decimal::nat_text(bytes) + " B"@
    } else {
        let size = measured(bytes);
        let unit = unit_of(size);
        let d = unit_size(unit);
        if size < 100 * d {
            let tenths = rounded(size * 10, d);
            decimal::nat_text((tenths / 10) as nat) + "."@ + decimal::nat_text(
                (tenths % 10) as nat,
            ) + " "@ + unit_name(unit)
        } else {
            decimal::nat_text(rounded(size, d) as nat) + " "@ + unit_name(unit)
        }
    }
}

fn round(n: u128, unit: u128) -> (r: u128)
    requires
        0 < unit,
        n < 0x1000_0000_0000_0000_0000_0000,
        unit < 0x1000_0000_0000_0000_0000_0000,
    ensures
        r == rounded(n as int, unit as int),
        r <= n / unit + 1,
{
    let q: u128 = n / unit;
    let rest: u128 = n % unit;
    assert(q <= n) by (nonlinear_arith)
        requires
            q == n / unit,
            unit > 0,
    ;
    if 2 * rest < unit || (2 * rest == unit && q % 2 == 0) {
        q
    } else {
        q + 1
    }
}

proof fn lemma_grain(bytes: nat)
    requires
        bytes <= u64::MAX,
    ensures
        1 <= grain(bytes) <= 2048,
{
    reveal_with_fuel(grain, 12);
}

/// A size to fifty-three binary digits.
fn measure(bytes: u64) -> (r: u128)
    ensures
        r == measured(bytes as nat),
        bytes < 0x20_0000_0000_0000 ==> r == bytes,
        r <= 0x1_0000_0000_0000_0000 + 0x1000,
{
    let mut unit: u128 = 1;
    let mut rest: u64 = bytes;
    proof {
        lemma_grain(bytes as nat);
    }
    while rest >= 0x20_0000_0000_0000
        invariant
            1 <= unit,
            unit * grain(rest as nat) == grain(bytes as nat),
            unit <= grain(bytes as nat),
            grain(bytes as nat) <= 2048,
            rest <= bytes,
        decreases rest,
    {
        proof {
            lemma_grain((rest / 2) as nat);
            let u = unit as int;
            let g = grain((rest / 2) as nat) as int;
            assert(grain(rest as nat) == 2 * g);
            assert(u * (2 * g) == (2 * u) * g) by (nonlinear_arith);
            assert(2 * u <= (2 * u) * g) by (nonlinear_arith)
                requires
                    g >= 1,
                    u >= 1,
            ;
        }
        unit = unit * 2;
        rest = rest / 2;
    }
    proof {
        lemma_grain(bytes as nat);
        assert(unit * 1 == unit);
    }
    let q: u128 = round(bytes as u128, unit);
    proof {
        let u = unit as int;
        let b = bytes as int;
        assert(q * u <= b + u) by (nonlinear_arith)
            requires
                q <= b / u + 1,
                u >= 1,
                b >= 0,
        ;
        if u == 1 {
            assert(b / 1 == b && b % 1 == 0);
            assert(rounded(b, 1) == b);
            assert(q * u == b) by (nonlinear_arith)
                requires
                    q == b,
                    u == 1,
            ;
        }
    }
    q * unit
}

/// A size in words, as the interface spells it.
pub fn human_bytes(bytes: u64) -> (r: String)
    ensures
        r@ == size_text(bytes as nat),
{
    if bytes < 1024 {
        let r = around(u64_text(bytes).as_str(), " B", "");
        proof {
            reveal_strlit("");
            assert(r@ =~= size_text(bytes as nat));
        }
        return r;
    }
    let size: u128 = measure(bytes);
    let (d, name): (u128, &'static str) = if size < 0x10_0000 {
        (0x400, "KB")
    } else if size < 0x4000_0000 {
        (0x10_0000, "MB")
    } else if size < 0x100_0000_0000 {
        (0x4000_0000, "GB")
    } else {
        (0x100_0000_0000, "TB")
    };
    let ghost unit = unit_of(size as int);
    assert(d == unit_size(unit) && name@ == unit_name(unit));
    if size < 100 * d {
        let tenths: u128 = round(size * 10, d);
        assert(tenths <= 1000) by {
            let n = size as int * 10;
            let u = d as int;
            assert(n / u < 1000) by (nonlinear_arith)
                requires
                    n < 1000 * u,
                    u > 0,
                    n >= 0,
            ;
        }
        let whole = u64_text((tenths / 10) as u64);
        let tenth = u64_text((tenths % 10) as u64);
        let mut r = whole;
        r.append(".");
        r.append(tenth.as_str());
        r.append(" ");
        r.append(name);
        r
    } else {
        let n: u128 = round(size, d);
        assert(n <= 0x1000_0000_0000_0000) by {
            let s = size as int;
            let u = d as int;
            assert(s / u <= s / 1024) by (nonlinear_arith)
                requires
                    u >= 1024,
                    s >= 0,
            ;
        }
        around(u64_text(n as u64).as_str(), " ", name)
    }
}

/// Whether some bytes begin as an MP4 file does.
pub open spec fn looks_like_mp4(bytes: Seq<u8>) -> bool {
    &&& bytes.len() >= 8
    &&& bytes[4] == 0x66
    &&& bytes[5] == 0x74
    &&& bytes[6] == 0x79
    &&& bytes[7] == 0x70
}

/// Whether some bytes begin as an MP4 file does: `ftyp` behind the length of the
/// first box.
pub fn is_mp4(bytes: &Vec<u8>) -> (r: bool)
    ensures
        r == looks_like_mp4(bytes@),
{
    bytes.len() >= 8 && bytes[4] == 0x66 && bytes[5] == 0x74 && bytes[6] == 0x79 && bytes[7] == 0x70
}

/// What is said of a size that is known.
pub open spec fn size_prefix(actual: Option<u64>) -> Seq<char> {
    match actual {
        Some(n) => size_text(n as nat) + " "@,
        None => seq![],
    }
}

/// The hash that a file is kept under. `bytes` are the file's, up to one more
/// than the limit; `actual` is the file's size, where it is known.
pub fn store_hash_addressed_mp4(bytes: &Vec<u8>, actual: Option<u64>, max_bytes: u64) -> (r: Result<
    String,
    AppError,
>)
    ensures
        r is Ok <==> bytes@.len() <= max_bytes && looks_like_mp4(bytes@),
        r matches Ok(hash) ==> hash@ == digest::blake3_hex(bytes@),
        r matches Err(e) ==> error::says(
            e,
            if bytes@.len() > max_bytes {
                "file too large: "@ + size_prefix(actual) + "(max "@ + size_text(
                    max_bytes as nat,
                ) + ")"@
            } else {
                "unsupported format (expected mp4)"@
            },
        ),
{
    if bytes.len() as u64 > max_bytes {
        let mut m = "file too large: ".to_owned();
        match actual {
            Some(n) => {
                let said = around(human_bytes(n).as_str(), " ", "");
                proof {
                    reveal_strlit("");
                    assert(said@ =~= size_prefix(actual));
                }
                m.append(said.as_str());
            },
            None => {
                assert(m@ + size_prefix(actual) =~= m@);
            },
        }
        m.append("(max ");
        m.append(human_bytes(max_bytes).as_str());
        m.append(")");
        return Err(AppError::Other(m));
    }
    if !is_mp4(bytes) {
        return Err(AppError::Other("unsupported format (expected mp4)".to_owned()));
    }
    Ok(hash_file_blake3(bytes))
}

/// The name that a file is kept under.
pub fn target_name(hash: &str) -> (r: String)
    ensures
        r@ == hash@ + ".mp4"@,
{
    let r = around(hash, ".mp4", "");
    proof {
        reveal_strlit("");
        assert(r@ =~= hash@ + ".mp4"@);
    }
    r
}

/// The name that a file is written under before it takes its own: the process
/// and a running number tell it from every other.
pub fn staging_name(hash: &str, process: u64, sequence: u64) -> (r: String)
    ensures
        r@ == "."@ + hash@ + "."@ + decimal::nat_text(process as nat) + "."@ + decimal::nat_text(
            sequence as nat,
        ) + ".part"@,
{
    let mut r = ".".to_owned();
    r.append(hash);
    r.append(".");
    r.append(u64_text(process).as_str());
    r.append(".");
    r.append(u64_text(sequence).as_str());
    r.append(".part");
    r
}

/// Files that are kept go by the same name only where their hashes agree.
pub proof fn one_name_is_one_hash(a: Seq<u8>, b: Seq<u8>)
    requires
        digest::blake3_hex(a) + ".mp4"@ == digest::blake3_hex(b) + ".mp4"@,
    ensures
        digest::blake3_hex(a) == digest::blake3_hex(b),
{
    let x = digest::blake3_hex(a);
    let y = digest::blake3_hex(b);
    assert((x + ".mp4"@).len() == (y + ".mp4"@).len());
    assert(x =~= (x + ".mp4"@).take(x.len() as int));
    assert(y =~= (y + ".mp4"@).take(y.len() as int));
}

/// A rounded quotient is never further than half a unit from the number.
pub proof fn a_quotient_is_rounded_to_the_nearest(n: int, unit: int)
    requires
        0 < unit,
    ensures
        -unit <= 2 * (rounded(n, unit) * unit - n) <= unit,
{
    vstd::arithmetic::div_mod::lemma_fundamental_div_mod(n, unit);
    vstd::arithmetic::div_mod::lemma_mod_bound(n, unit);
    let q = n / unit;
    assert((q + 1) * unit == q * unit + unit) by (nonlinear_arith);
    assert(unit * q == q * unit) by (nonlinear_arith);
}

/// A size below what can be told apart exactly is told as it is, in the largest unit that it
/// fills: one decimal below a hundred and none above, each rounded to the nearest.
pub proof fn a_size_is_told_in_its_unit(bytes: nat)
    requires
        bytes < 0x20_0000_0000_0000,
    ensures
        bytes < 1024 ==> size_text(bytes) == decimal::nat_text(bytes) + " B"@,
        1024 <= bytes < 100 * 1024 ==> size_text(bytes) == decimal::nat_text(
            (rounded(bytes as int * 10, 1024) / 10) as nat,
        ) + "."@ + decimal::nat_text((rounded(bytes as int * 10, 1024) % 10) as nat) + " "@ + "KB"@,
        100 * 1024 <= bytes < 0x10_0000 ==> size_text(bytes) == decimal::nat_text(
            rounded(bytes as int, 1024) as nat,
        ) + " "@ + "KB"@,
        0x10_0000 <= bytes < 100 * 0x10_0000 ==> size_text(bytes) == decimal::nat_text(
            (rounded(bytes as int * 10, 0x10_0000) / 10) as nat,
        ) + "."@ + decimal::nat_text((rounded(bytes as int * 10, 0x10_0000) % 10) as nat) + " "@ + "MB"@,
        100 * 0x10_0000 <= bytes < 0x4000_0000 ==> size_text(bytes) == decimal::nat_text(
            rounded(bytes as int, 0x10_0000) as nat,
        ) + " "@ + "MB"@,
        0x4000_0000 <= bytes < 100 * 0x4000_0000 ==> size_text(bytes)
            == decimal::nat_text((rounded(bytes as int * 10, 0x4000_0000) / 10) as nat) + "."@
            + decimal::nat_text((rounded(bytes as int * 10, 0x4000_0000) % 10) as nat) + " "@
            + "GB"@,
        0x100_0000_0000 <= bytes < 100 * 0x100_0000_0000 ==> size_text(bytes)
            == decimal::nat_text((rounded(bytes as int * 10, 0x100_0000_0000) / 10) as nat)
            + "."@ + decimal::nat_text(
            (rounded(bytes as int * 10, 0x100_0000_0000) % 10) as nat,
        ) + " "@ + "TB"@,
{
    assert(grain(bytes) == 1);
    assert(rounded(bytes as int, 1) == bytes);
    assert(measured(bytes) == bytes);
}

/// Bytes are an MP4 file's where `ftyp` stands behind their first four, whatever these and
/// the rest are, and nowhere else.
pub proof fn an_mp4_file_is_known_by_its_first_box(length: Seq<u8>, rest: Seq<u8>, bytes: Seq<u8>)
    requires
        length.len() == 4,
    ensures
        looks_like_mp4(length + seq![0x66u8, 0x74, 0x79, 0x70] + rest),
        bytes.len() < 8 ==> !looks_like_mp4(bytes),
        bytes.len() >= 8 && bytes.subrange(4, 8) != seq![0x66u8, 0x74, 0x79, 0x70]
            ==> !looks_like_mp4(bytes),
{
    if looks_like_mp4(bytes) {
        assert(bytes.subrange(4, 8) =~= seq![0x66u8, 0x74, 0x79, 0x70]);
    }
}

/// A size that is known is told, and one that is not is left out.
pub proof fn a_known_size_is_told(n: u64)
    ensures
        size_prefix(Some(n)) == size_text(n as nat) + " "@,
        size_prefix(None).len() == 0,
{
}

} // verus!
