//! The colours a user keeps.

use vstd::prelude::*;

use crate::text::{same, texts};
use crate::ui::color::{hex_of, hex_text};

verus! {

/// A palette with a colour added, unless it holds it.
pub open spec fn with_color(colors: Seq<Seq<char>>, entry: Seq<char>) -> Seq<Seq<char>> {
    if colors.contains(entry) {
        colors
    } else {
        colors.push(entry)
    }
}

fn holds(colors: &Vec<String>, entry: &str) -> (r: bool)
    ensures
        r == texts(colors@).contains(entry@),
{
    let mut i: usize = 0;
    while i < colors.len()
        invariant
            i <= colors@.len(),
            forall|k: int| 0 <= k < i ==> (#[trigger] texts(colors@)[k]) != entry@,
        decreases colors@.len() - i,
    {
        assert(texts(colors@)[i as int] == colors@[i as int]@);
        if same(colors[i].as_str(), entry) {
            return true;
        }
        i = i + 1;
    }
    false
}

/// Keeps a colour, and says whether the palette changed: a colour is kept once.
pub fn keep_color(colors: &mut Vec<String>, red: u8, green: u8, blue: u8) -> (r: bool)
    ensures
        r == !texts(old(colors)@).contains(hex_text(red, green, blue, false)),
        texts(final(colors)@) == with_color(
            texts(old(colors)@),
            hex_text(red, green, blue, false),
        ),
{
    let entry = hex_of(red, green, blue);
    if holds(colors, entry.as_str()) {
        return false;
    }
    let ghost before = texts(colors@);
    let ghost e = entry@;
    colors.push(entry);
    assert(texts(colors@) =~= before.push(e));
    true
}

/// A palette without an entry.
pub open spec fn without_color(colors: Seq<Seq<char>>, entry: Seq<char>) -> Seq<Seq<char>>
    decreases colors.len(),
{
    if colors.len() == 0 {
        seq![]
    } else {
        let before = without_color(colors.drop_last(), entry);
        if colors.last() == entry {
            before
        } else {
            before.push(colors.last())
        }
    }
}

/// Drops an entry of the palette.
pub fn drop_color(colors: &mut Vec<String>, entry: &str)
    ensures
        texts(final(colors)@) == without_color(texts(old(colors)@), entry@),
{
    let ghost all = texts(colors@);
    let mut out: Vec<String> = Vec::new();
    let mut i: usize = 0;
    assert(all.take(0) =~= seq![]);
    assert(texts(out@) =~= seq![]);
    while i < colors.len()
        invariant
            i <= colors@.len(),
            all == texts(colors@),
            texts(out@) == without_color(all.take(i as int), entry@),
        decreases colors@.len() - i,
    {
        let ghost before = texts(out@);
        assert(all.take(i + 1).drop_last() =~= all.take(i as int));
        assert(all.take(i + 1).last() == all[i as int]);
        if !same(colors[i].as_str(), entry) {
            out.push(colors[i].clone());
            assert(texts(out@) =~= before.push(all[i as int]));
        }
        i = i + 1;
    }
    assert(all.take(i as int) =~= all);
    *colors = out;
}

/// A colour that is kept is in the palette, and one that was dropped is not.
pub proof fn law_palette_holds_what_is_kept(colors: Seq<Seq<char>>, entry: Seq<char>)
    ensures
        with_color(colors, entry).contains(entry),
        !without_color(colors, entry).contains(entry),
    decreases colors.len(),
{
    if !colors.contains(entry) {
        assert(colors.push(entry)[colors.len() as int] == entry);
    }
    if colors.len() > 0 {
        law_palette_holds_what_is_kept(colors.drop_last(), entry);
        let before = without_color(colors.drop_last(), entry);
        let after = without_color(colors, entry);
        if after.contains(entry) {
            let k = choose|k: int| 0 <= k < after.len() && after[k] == entry;
            if k < before.len() {
                assert(before[k] == entry);
            }
        }
    }
}

/// Keeping and dropping a colour leave every other entry where it is, and a colour that is
/// kept already changes nothing.
pub proof fn law_other_colours_stay(colors: Seq<Seq<char>>, entry: Seq<char>, other: Seq<char>)
    ensures
        colors.contains(entry) ==> with_color(colors, entry) == colors,
        with_color(colors, entry).take(colors.len() as int) == colors,
        with_color(colors, entry).len() <= colors.len() + 1,
        other != entry ==> without_color(colors.push(other), entry) == without_color(
            colors,
            entry,
        ).push(other),
        without_color(colors.push(entry), entry) == without_color(colors, entry),
{
    assert(colors.push(other).drop_last() =~= colors);
    assert(colors.push(entry).drop_last() =~= colors);
    assert(colors.push(entry).take(colors.len() as int) =~= colors);
    assert(colors.take(colors.len() as int) =~= colors);
}

} // verus!
