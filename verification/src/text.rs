//! The output protocol: the text of the two line kinds the scanner emits.
//!
//! `? <address>:<start>-<end>` announces that the scan of one address over
//! the whole port range begins; `= <address>:<port>` reports one confirmed
//! open port. An IPv4 address prints as dotted decimal; an IPv6 address as
//! its eight groups in lowercase hex, separated by colons, without leading
//! zeros within a group.

use vstd::prelude::*;
use crate::addr::Addr;

verus! {

/// The digit character for a value below 16.
pub open spec fn digit(d: nat) -> char {
    if d == 0 {
        '0'
    } else if d == 1 {
        '1'
    } else if d == 2 {
        '2'
    } else if d == 3 {
        '3'
    } else if d == 4 {
        '4'
    } else if d == 5 {
        '5'
    } else if d == 6 {
        '6'
    } else if d == 7 {
        '7'
    } else if d == 8 {
        '8'
    } else if d == 9 {
        '9'
    } else if d == 10 {
        'a'
    } else if d == 11 {
        'b'
    } else if d == 12 {
        'c'
    } else if d == 13 {
        'd'
    } else if d == 14 {
        'e'
    } else {
        'f'
    }
}

/// The decimal text of a number, most significant digit first, no leading
/// zeros (zero itself prints as "0").
pub open spec fn dec_text(n: nat) -> Seq<char>
    decreases n,
{
    if n < 10 {
        seq![digit(n)]
    } else {
        dec_text(n / 10).push(digit(n % 10))
    }
}

/// The lowercase hex text of a number, most significant digit first, no
/// leading zeros (zero itself prints as "0").
pub open spec fn hex_text(n: nat) -> Seq<char>
    decreases n,
{
    if n < 16 {
        seq![digit(n)]
    } else {
        hex_text(n / 16).push(digit(n % 16))
    }
}

/// The dotted-decimal text of an IPv4 address value.
pub open spec fn v4_text(v: nat) -> Seq<char> {
    dec_text(v / 0x1000000 % 0x100) + seq!['.'] + dec_text(v / 0x10000 % 0x100) + seq!['.']
        + dec_text(v / 0x100 % 0x100) + seq!['.'] + dec_text(v % 0x100)
}

/// The text of an IPv6 address value: eight hex groups of 16 bits each,
/// most significant first, separated by colons.
pub open spec fn v6_text(v: nat) -> Seq<char> {
    hex_text(v / 0x10000000000000000000000000000 % 0x10000) + seq![':'] + hex_text(
        v / 0x1000000000000000000000000 % 0x10000,
    ) + seq![':'] + hex_text(v / 0x100000000000000000000 % 0x10000) + seq![':'] + hex_text(
        v / 0x10000000000000000 % 0x10000,
    ) + seq![':'] + hex_text(v / 0x1000000000000 % 0x10000) + seq![':'] + hex_text(
        v / 0x100000000 % 0x10000,
    ) + seq![':'] + hex_text(v / 0x10000 % 0x10000) + seq![':'] + hex_text(v % 0x10000)
}

/// The text of an address, by family.
pub open spec fn addr_text(a: Addr) -> Seq<char> {
    match a {
        Addr::V4(v) => v4_text(v as nat),
        Addr::V6(v) => v6_text(v as nat),
    }
}

/// The "scan started" line for one address and the whole port range.
pub open spec fn started_line(a: Addr, port_start: u16, port_end: u16) -> Seq<char> {
    seq!['?', ' '] + addr_text(a) + seq![':'] + dec_text(port_start as nat) + seq!['-'] + dec_text(
        port_end as nat,
    )
}

/// The "open port" line for one confirmed (address, port) pair.
pub open spec fn open_port_line(a: Addr, port: u16) -> Seq<char> {
    seq!['=', ' '] + addr_text(a) + seq![':'] + dec_text(port as nat)
}

/// The character for a digit value below 16.
fn digit_char(d: u8) -> (c: char)
    requires
        d < 16,
    ensures
        c == digit(d as nat),
{
    match d {
        0 => '0',
        1 => '1',
        2 => '2',
        3 => '3',
        4 => '4',
        5 => '5',
        6 => '6',
        7 => '7',
        8 => '8',
        9 => '9',
        10 => 'a',
        11 => 'b',
        12 => 'c',
        13 => 'd',
        14 => 'e',
        _ => 'f',
    }
}

/// Append the decimal text of `n`.
fn push_dec(out: &mut Vec<char>, n: u32)
    ensures
        final(out)@ == old(out)@ + dec_text(n as nat),
    decreases n,
{
    if n >= 10 {
        push_dec(out, n / 10);
    }
    out.push(digit_char((n % 10) as u8));
    proof {
        assert(out@ =~= old(out)@ + dec_text(n as nat));
    }
}

/// Append the lowercase hex text of `n`.
fn push_hex(out: &mut Vec<char>, n: u16)
    ensures
        final(out)@ == old(out)@ + hex_text(n as nat),
    decreases n,
{
    if n >= 16 {
        push_hex(out, n / 16);
    }
    out.push(digit_char((n % 16) as u8));
    proof {
        assert(out@ =~= old(out)@ + hex_text(n as nat));
    }
}

/// Append the text of an address.
fn push_addr(out: &mut Vec<char>, a: &Addr)
    ensures
        final(out)@ == old(out)@ + addr_text(*a),
{
    match a {
        Addr::V4(v) => {
            push_dec(out, *v / 0x1000000 % 0x100);
            out.push('.');
            push_dec(out, *v / 0x10000 % 0x100);
            out.push('.');
            push_dec(out, *v / 0x100 % 0x100);
            out.push('.');
            push_dec(out, *v % 0x100);
            proof {
                assert(out@ =~= old(out)@ + addr_text(*a));
            }
        },
        Addr::V6(v) => {
            push_hex(out, (*v / 0x10000000000000000000000000000 % 0x10000) as u16);
            out.push(':');
            push_hex(out, (*v / 0x1000000000000000000000000 % 0x10000) as u16);
            out.push(':');
            push_hex(out, (*v / 0x100000000000000000000 % 0x10000) as u16);
            out.push(':');
            push_hex(out, (*v / 0x10000000000000000 % 0x10000) as u16);
            out.push(':');
            push_hex(out, (*v / 0x1000000000000 % 0x10000) as u16);
            out.push(':');
            push_hex(out, (*v / 0x100000000 % 0x10000) as u16);
            out.push(':');
            push_hex(out, (*v / 0x10000 % 0x10000) as u16);
            out.push(':');
            push_hex(out, (*v % 0x10000) as u16);
            proof {
                assert(out@ =~= old(out)@ + addr_text(*a));
            }
        },
    }
}

/// Relies on `Iterator::collect` building a `String` from `char` items: the
/// string holds exactly the collected characters, in order.
#[verifier::external_body]
fn chars_to_string(v: &Vec<char>) -> (s: String)
    ensures
        s@ == v@,
{
    v.iter().collect()
}

/// The "scan started" line for one address, as printed.
pub fn format_started(a: &Addr, port_start: u16, port_end: u16) -> (s: String)
    ensures
        s@ == started_line(*a, port_start, port_end),
{
    let mut out: Vec<char> = Vec::new();
    out.push('?');
    out.push(' ');
    push_addr(&mut out, a);
    out.push(':');
    push_dec(&mut out, port_start as u32);
    out.push('-');
    push_dec(&mut out, port_end as u32);
    proof {
        assert(out@ =~= started_line(*a, port_start, port_end));
    }
    chars_to_string(&out)
}

/// The "open port" line for one confirmed (address, port) pair, as printed.
pub fn format_open_port(a: &Addr, port: u16) -> (s: String)
    ensures
        s@ == open_port_line(*a, port),
{
    let mut out: Vec<char> = Vec::new();
    out.push('=');
    out.push(' ');
    push_addr(&mut out, a);
    out.push(':');
    push_dec(&mut out, port as u32);
    proof {
        assert(out@ =~= open_port_line(*a, port));
    }
    chars_to_string(&out)
}

} // verus!
