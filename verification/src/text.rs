//! Numbers, flags and lists as text.

use vstd::prelude::*;
use vstd::string::StringExecFns;
use crate::model::CheatsheetsInfo;
use crate::model::InfoView;
use crate::model::TagsView;
use crate::tags::strings_view;

verus! {

/// The character of the digit `d`.
pub open spec fn digit_char(d: nat) -> char {
    if d == 0 {
        '0'
    } else if d == 1 {
        '1'
    } else if d == 2 {
        '2'
    } else if d == 3 {
        '3'
    } else if d == 4 {
        '4'
    } else if d == 5 {
        '5'
    } else if d == 6 {
        '6'
    } else if d == 7 {
        '7'
    } else if d == 8 {
        '8'
    } else {
        '9'
    }
}

/// The number `n` in decimal digits, without leading zeros.
pub open spec fn decimal(n: nat) -> Seq<char>
    decreases n,
{
    if n < 10 {
        seq![digit_char(n)]
    } else {
        decimal(n / 10).push(digit_char(n % 10))
    }
}

/// `true` or `false`.
pub open spec fn bool_text(b: bool) -> Seq<char> {
    if b {
        "true"@
    } else {
        "false"@
    }
}

/// The strings of `items`, with `separator` between each two.
pub open spec fn joined(items: Seq<Seq<char>>, separator: Seq<char>) -> Seq<char>
    decreases items.len(),
{
    if items.len() == 0 {
        Seq::empty()
    } else if items.len() == 1 {
        items[0]
    } else {
        joined(items.drop_last(), separator) + separator + items.last()
    }
}

/// The digit `d` as text.
fn digit_str(d: u64) -> (r: &'static str)
    requires
        d < 10,
    ensures
        r@ == seq![digit_char(d as nat)],
{
    proof {
        reveal_strlit("0");
        reveal_strlit("1");
        reveal_strlit("2");
        reveal_strlit("3");
        reveal_strlit("4");
        reveal_strlit("5");
        reveal_strlit("6");
        reveal_strlit("7");
        reveal_strlit("8");
        reveal_strlit("9");
    }
    let r = if d == 0 {
        "0"
    } else if d == 1 {
        "1"
    } else if d == 2 {
        "2"
    } else if d == 3 {
        "3"
    } else if d == 4 {
        "4"
    } else if d == 5 {
        "5"
    } else if d == 6 {
        "6"
    } else if d == 7 {
        "7"
    } else if d == 8 {
        "8"
    } else {
        "9"
    };
    assert(r@ =~= seq![digit_char(d as nat)]);
    r
}

/// Writes `n` in decimal digits at the end of `out`.
pub fn push_decimal(out: &mut String, n: u64)
    ensures
        final(out)@ == old(out)@ + decimal(n as nat),
    decreases n,
{
    if n >= 10 {
        push_decimal(out, n / 10);
    }
    let ghost before = out@;
    out.append(digit_str(n % 10));
    proof {
        if n >= 10 {
            assert(out@ =~= old(out)@ + decimal(n as nat / 10).push(digit_char(n as nat % 10)));
        } else {
            assert(out@ =~= old(out)@ + seq![digit_char(n as nat)]);
        }
    }
}

/// Writes `true` or `false` at the end of `out`.
pub fn push_bool(out: &mut String, b: bool)
    ensures
        final(out)@ == old(out)@ + bool_text(b),
{
    if b {
        out.append("true");
    } else {
        out.append("false");
    }
}

/// Writes the strings of `items` at the end of `out`, with `separator`
/// between each two.
pub fn push_joined(out: &mut String, items: &Vec<String>, separator: &str)
    ensures
        final(out)@ == old(out)@ + joined(strings_view(items@), separator@),
{
    let ghost all = strings_view(items@);
    let mut i: usize = 0;
    assert(all.take(0) =~= Seq::<Seq<char>>::empty());
    assert(out@ =~= old(out)@ + joined(all.take(0), separator@));
    while i < items.len()
        invariant
            i <= items.len(),
            all == strings_view(items@),
            out@ == old(out)@ + joined(all.take(i as int), separator@),
        decreases items.len() - i,
    {
        let ghost before = out@;
        if i > 0 {
            out.append(separator);
        }
        out.append(items[i].as_str());
        proof {
            let upto = all.take(i as int + 1);
            assert(upto.drop_last() =~= all.take(i as int));
            assert(upto.last() == all[i as int]);
            if i == 0 {
                assert(upto[0] == all[0]);
                assert(all.take(0) =~= Seq::<Seq<char>>::empty());
                assert(out@ =~= old(out)@ + joined(upto, separator@));
            } else {
                assert(out@ =~= old(out)@ + (joined(all.take(i as int), separator@) + separator@
                    + all[i as int]));
            }
        }
        i += 1;
    }
    assert(all.take(i as int) =~= all);
}

/// One line of a report: two blanks, the key, ` : [`, the tags with `, `
/// between them, `]`, and the end of the line.
pub open spec fn tags_line(entry: TagsView) -> Seq<char> {
    "  "@ + entry.key + " : ["@ + joined(entry.tags, ", "@) + "]\n"@
}

/// The lines of `entries`, one after the other.
pub open spec fn tags_lines(entries: Seq<TagsView>) -> Seq<char>
    decreases entries.len(),
{
    if entries.len() == 0 {
        Seq::empty()
    } else {
        tags_lines(entries.drop_last()) + tags_line(entries.last())
    }
}

/// The report of a store as the host prints it: the entries with their tags
/// under one heading, the window classes with theirs under another.
pub open spec fn info_report(info: InfoView) -> Seq<char> {
    "\ncheatsheets tags:\n"@ + tags_lines(info.cheatsheets) + "\nwm classes tags:\n"@ + tags_lines(
        info.wm_classes,
    ) + "\n"@
}

/// Writes one line of a report at the end of `out`.
fn push_tags_line(out: &mut String, key: &str, tags: &Vec<String>)
    ensures
        final(out)@ == old(out)@ + tags_line(
            TagsView { key: key@, tags: strings_view(tags@) },
        ),
{
    out.append("  ");
    out.append(key);
    out.append(" : [");
    push_joined(out, tags, ", ");
    out.append("]\n");
    assert(out@ =~= old(out)@ + tags_line(TagsView { key: key@, tags: strings_view(tags@) }));
}

/// The report of a store as text.
pub fn format_cheatsheets_info(info: &CheatsheetsInfo) -> (r: String)
    ensures
        r@ == info_report(info@),
{
    let mut out = String::from_str("\ncheatsheets tags:\n");
    let ghost sheets = info@.cheatsheets;
    let ghost classes = info@.wm_classes;
    let mut i: usize = 0;
    assert(out@ =~= "\ncheatsheets tags:\n"@ + tags_lines(sheets.take(0)));
    while i < info.cheatsheets.len()
        invariant
            i <= info.cheatsheets.len(),
            sheets == info@.cheatsheets,
            out@ == "\ncheatsheets tags:\n"@ + tags_lines(sheets.take(i as int)),
        decreases info.cheatsheets.len() - i,
    {
        let entry = &info.cheatsheets[i];
        push_tags_line(&mut out, entry.name.as_str(), &entry.tags);
        proof {
            let upto = sheets.take(i as int + 1);
            assert(upto.drop_last() =~= sheets.take(i as int));
            assert(upto.last() == entry@);
            assert(out@ =~= "\ncheatsheets tags:\n"@ + tags_lines(upto));
        }
        i += 1;
    }
    assert(sheets.take(i as int) =~= sheets);
    let ghost head = out@;
    out.append("\nwm classes tags:\n");
    let mut k: usize = 0;
    assert(out@ =~= head + "\nwm classes tags:\n"@ + tags_lines(classes.take(0)));
    while k < info.wm_classes.len()
        invariant
            k <= info.wm_classes.len(),
            classes == info@.wm_classes,
            out@ == head + "\nwm classes tags:\n"@ + tags_lines(classes.take(k as int)),
        decreases info.wm_classes.len() - k,
    {
        let entry = &info.wm_classes[k];
        push_tags_line(&mut out, entry.wm_class.as_str(), &entry.tags);
        proof {
            let upto = classes.take(k as int + 1);
            assert(upto.drop_last() =~= classes.take(k as int));
            assert(upto.last() == entry@);
            assert(out@ =~= head + "\nwm classes tags:\n"@ + tags_lines(upto));
        }
        k += 1;
    }
    assert(classes.take(k as int) =~= classes);
    out.append("\n");
    out
}

} // verus!
