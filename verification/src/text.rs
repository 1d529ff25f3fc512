//! Texts that the crate composes: numbers in decimal, and lists of error
//! messages.

use vstd::prelude::*;

verus! {

/// The character that writes the digit `d`.
pub open spec fn digit_char(d: int) -> char {
    if d == 0 {
        '0'
    } else if d == 1 {
        '1'
    } else if d == 2 {
        '2'
    } else if d == 3 {
        '3'
    } else if d == 4 {
        '4'
    } else if d == 5 {
        '5'
    } else if d == 6 {
        '6'
    } else if d == 7 {
        '7'
    } else if d == 8 {
        '8'
    } else {
        '9'
    }
}

/// The number `n` written in decimal, without leading zeros.
pub open spec fn decimal_text(n: nat) -> Seq<char>
    decreases n,
{
    if n < 10 {
        seq![digit_char(n as int)]
    } else {
        decimal_text(n / 10).push(digit_char((n % 10) as int))
    }
}

fn digit_str(d: u64) -> (text: &'static str)
    requires
        d < 10,
    ensures
        text@ == seq![digit_char(d as int)],
{
    let text = if d == 0 {
        "0"
    } else if d == 1 {
        "1"
    } else if d == 2 {
        "2"
    } else if d == 3 {
        "3"
    } else if d == 4 {
        "4"
    } else if d == 5 {
        "5"
    } else if d == 6 {
        "6"
    } else if d == 7 {
        "7"
    } else if d == 8 {
        "8"
    } else {
        "9"
    };
    proof {
        reveal_strlit("0");
        reveal_strlit("1");
        reveal_strlit("2");
        reveal_strlit("3");
        reveal_strlit("4");
        reveal_strlit("5");
        reveal_strlit("6");
        reveal_strlit("7");
        reveal_strlit("8");
        reveal_strlit("9");
        assert(text@ =~= seq![digit_char(d as int)]);
    }
    text
}

/// Writes `n` in decimal.
pub fn decimal_string(n: u64) -> (text: String)
    ensures
        text@ == decimal_text(n as nat),
    decreases n,
{
    if n < 10 {
        String::from_str(digit_str(n))
    } else {
        let mut text = decimal_string(n / 10);
        let last = digit_str(n % 10);
        text.append(last);
        assert(text@ =~= decimal_text((n / 10) as nat).push(digit_char((n % 10) as int)));
        text
    }
}

/// One line of a list of errors: its place in the list, counted from zero, and
/// the message.
pub open spec fn error_line(place: nat, message: Seq<char>) -> Seq<char> {
    "err ("@ + decimal_text(place) + "): "@ + message
}

/// The lines of all the messages, each but the last followed by a line break.
pub open spec fn combined_errs(messages: Seq<Seq<char>>) -> Seq<char>
    decreases messages.len(),
{
    if messages.len() == 0 {
        Seq::empty()
    } else if messages.len() == 1 {
        error_line(0, messages[0])
    } else {
        combined_errs(messages.drop_last()) + "\n"@ + error_line(
            (messages.len() - 1) as nat,
            messages.last(),
        )
    }
}

/// The texts of the messages, in order.
pub open spec fn message_views(messages: Seq<String>) -> Seq<Seq<char>> {
    messages.map_values(|m: String| m@)
}

/// Joins error messages into one text, one numbered line for each.
pub fn combine_errs(errs: Vec<String>) -> (text: String)
    ensures
        text@ == combined_errs(message_views(errs@)),
{
    let ghost all = message_views(errs@);
    let mut text = String::new();
    let mut i: usize = 0;
    proof {
        assert(all.take(0) =~= Seq::<Seq<char>>::empty());
    }
    while i < errs.len()
        invariant
            i <= errs.len(),
            all == message_views(errs@),
            text@ == combined_errs(all.take(i as int)),
        decreases errs.len() - i,
    {
        let ghost before = text@;
        if i > 0 {
            text.append("\n");
        }
        text.append("err (");
        text.append(decimal_string(i as u64).as_str());
        text.append("): ");
        text.append(errs[i].as_str());
        proof {
            let upto = all.take(i + 1);
            assert(upto.drop_last() =~= all.take(i as int));
            assert(upto.last() == errs[i as int]@);
            if i == 0 {
                assert(before =~= Seq::<char>::empty());
                assert(text@ =~= error_line(0, upto[0]));
            } else {
                assert(text@ =~= before + "\n"@ + error_line(i as nat, upto.last()));
            }
        }
        i += 1;
    }
    proof {
        assert(all.take(i as int) =~= all);
    }
    text
}

/// The character that writes the hexadecimal digit `d`, in lower case.
pub open spec fn hex_char(d: int) -> char {
    if d < 10 {
        digit_char(d)
    } else if d == 10 {
        'a'
    } else if d == 11 {
        'b'
    } else if d == 12 {
        'c'
    } else if d == 13 {
        'd'
    } else if d == 14 {
        'e'
    } else {
        'f'
    }
}

/// The last `width` hexadecimal digits of `n`, the highest first.
pub open spec fn hex_text(n: nat, width: nat) -> Seq<char>
    decreases width,
{
    if width == 0 {
        Seq::empty()
    } else {
        hex_text(n / 16, (width - 1) as nat).push(hex_char((n % 16) as int))
    }
}

fn hex_str(d: u128) -> (text: &'static str)
    requires
        d < 16,
    ensures
        text@ == seq![hex_char(d as int)],
{
    if d < 10 {
        digit_str(d as u64)
    } else {
        let text = if d == 10 {
            "a"
        } else if d == 11 {
            "b"
        } else if d == 12 {
            "c"
        } else if d == 13 {
            "d"
        } else if d == 14 {
            "e"
        } else {
            "f"
        };
        proof {
            reveal_strlit("a");
            reveal_strlit("b");
            reveal_strlit("c");
            reveal_strlit("d");
            reveal_strlit("e");
            reveal_strlit("f");
            assert(text@ =~= seq![hex_char(d as int)]);
        }
        text
    }
}

/// Adds the last `width` hexadecimal digits of `n` to `text`.
fn append_hex(text: &mut String, n: u128, width: u8)
    ensures
        final(text)@ == old(text)@ + hex_text(n as nat, width as nat),
    decreases width,
{
    if width > 0 {
        append_hex(text, n / 16, width - 1);
        text.append(hex_str(n % 16));
        assert(text@ =~= old(text)@ + hex_text(n as nat, width as nat));
    } else {
        assert(text@ =~= old(text)@ + hex_text(n as nat, width as nat));
    }
}

/// A 128-bit identifier in its usual writing: 32 hexadecimal digits in lower
/// case, the highest first, in groups of 8, 4, 4, 4 and 12 with hyphens
/// between them.
pub open spec fn uuid_text(id: u128) -> Seq<char> {
    hex_text((id / 0x1_0000_0000_0000_0000_0000_0000) as nat, 8) + seq!['-'] + hex_text(
        (id / 0x1_0000_0000_0000_0000_0000) as nat,
        4,
    ) + seq!['-'] + hex_text((id / 0x1_0000_0000_0000_0000) as nat, 4) + seq!['-'] + hex_text(
        (id / 0x1_0000_0000_0000) as nat,
        4,
    ) + seq!['-'] + hex_text(id as nat, 12)
}

/// Writes a 128-bit identifier in its usual writing.
pub fn uuid_string(id: u128) -> (text: String)
    ensures
        text@ == uuid_text(id),
{
    let mut text = String::new();
    proof {
        reveal_strlit("-");
    }
    append_hex(&mut text, id / 0x1_0000_0000_0000_0000_0000_0000, 8);
    text.append("-");
    append_hex(&mut text, id / 0x1_0000_0000_0000_0000_0000, 4);
    text.append("-");
    append_hex(&mut text, id / 0x1_0000_0000_0000_0000, 4);
    text.append("-");
    append_hex(&mut text, id / 0x1_0000_0000_0000, 4);
    text.append("-");
    append_hex(&mut text, id, 12);
    assert(text@ =~= uuid_text(id));
    text
}

/// How a truth value is written.
pub open spec fn bool_text(b: bool) -> Seq<char> {
    if b {
        "true"@
    } else {
        "false"@
    }
}

/// Writes a truth value.
pub fn bool_string(b: bool) -> (text: String)
    ensures
        text@ == bool_text(b),
{
    if b {
        String::from_str("true")
    } else {
        String::from_str("false")
    }
}

} // verus!
