use vstd::prelude::*;

verus! {

/// The built-in level: 15 rows of 16 tiles, `1` for dirt and `0` for empty.
pub const DEFAULT_MAP: &'static str = "1100000000000000
0000000000000000
0000000000000000
0000000000000000
0000000000000000
0000000000000000
0000000000000000
0000000000000000
0000000000000000
0000000000000000
0000000000000000
0000000000000000
0000000000000000
1111111111111111
1111111111111111";

/// Whether `c` is a white-space character (Unicode's White_Space set).
pub open spec fn is_space(c: char) -> bool {
    ('\u{9}' <= c && c <= '\u{d}') || c == ' ' || c == '\u{85}' || c == '\u{a0}' || c
        == '\u{1680}' || ('\u{2000}' <= c && c <= '\u{200a}') || c == '\u{2028}' || c
        == '\u{2029}' || c == '\u{202f}' || c == '\u{205f}' || c == '\u{3000}'
}

/// The palette slot that a map character selects: its decimal digit where
/// the palette has that many entries, slot 0 for any other character.
pub open spec fn slot_of(c: char, palette_len: nat) -> usize {
    if '0' <= c && c <= '9' && (c as int - '0' as int) < palette_len {
        (c as int - '0' as int) as usize
    } else {
        0
    }
}

/// The palette slots of a textual map, in order: white space is skipped and
/// every other character selects one slot.
pub open spec fn level_slots(map: Seq<char>, palette_len: nat) -> Seq<usize>
    decreases map.len(),
{
    if map.len() == 0 {
        Seq::empty()
    } else {
        let rest = level_slots(map.drop_last(), palette_len);
        if is_space(map.last()) {
            rest
        } else {
            rest.push(slot_of(map.last(), palette_len))
        }
    }
}

/// Whether `c` is a white-space character.
pub fn is_space_char(c: char) -> (r: bool)
    ensures
        r == is_space(c),
{
    ('\u{9}' <= c && c <= '\u{d}') || c == ' ' || c == '\u{85}' || c == '\u{a0}' || c
        == '\u{1680}' || ('\u{2000}' <= c && c <= '\u{200a}') || c == '\u{2028}' || c
        == '\u{2029}' || c == '\u{202f}' || c == '\u{205f}' || c == '\u{3000}'
}

/// The palette slot that the map character `c` selects.
pub fn slot_for(c: char, palette_len: usize) -> (slot: usize)
    ensures
        slot == slot_of(c, palette_len as nat),
{
    if '0' <= c && c <= '9' {
        let d = (c as u32 - '0' as u32) as usize;
        if d < palette_len {
            return d;
        }
    }
    0
}

/// Reads a textual map into the palette slots of its tiles, in grid order.
/// White space (line breaks included) is skipped; a character that is not
/// a digit, or a digit past the end of the palette, selects slot 0.
pub fn parse_level(map: &[char], palette_len: usize) -> (slots: Vec<usize>)
    requires
        palette_len >= 1,
    ensures
        slots@ == level_slots(map@, palette_len as nat),
        forall|i: int| 0 <= i < slots@.len() ==> #[trigger] slots@[i] < palette_len,
{
    let mut slots: Vec<usize> = Vec::new();
    let mut i: usize = 0;
    while i < map.len()
        invariant
            i <= map@.len(),
            palette_len >= 1,
            slots@ == level_slots(map@.take(i as int), palette_len as nat),
            forall|j: int| 0 <= j < slots@.len() ==> #[trigger] slots@[j] < palette_len,
        decreases map@.len() - i,
    {
        let c = map[i];
        proof {
            assert(map@.take(i as int + 1).drop_last() =~= map@.take(i as int));
            assert(map@.take(i as int + 1).last() == c);
        }
        if !is_space_char(c) {
            slots.push(slot_for(c, palette_len));
        }
        i = i + 1;
    }
    proof {
        assert(map@.take(map@.len() as int) =~= map@);
    }
    slots
}

} // verus!
