//! The emoji picker of the chat composer.

use vstd::prelude::*;
use crate::text::push_char;

verus! {

/// Events the picker hands to the composer.
#[derive(Debug, Clone)]
pub enum StickerPickerEvent {
    InsertEmoji(String),
}

/// Actions of the picker.
#[derive(Debug, Clone)]
pub enum StickerPickerAction {
    InsertEmoji(String),
}

/// The picker's emojis: the smiley faces through the robot, each one
/// character (no sequences joined by U+200D, no glyphs that Windows lacks).
pub open spec fn emoji_chars() -> Seq<char> {
    emoji_prefix(13)
}

/// Row `k` of the picker (eight emojis, the last row six).
pub open spec fn emoji_row(k: int) -> Seq<char> {
    if k == 0 {
        seq!['😀', '😃', '😄', '😁', '😆', '😅', '🤣', '😂']
    }
    else if k == 1 {
        seq!['🙂', '🙃', '😉', '😊', '😇', '🥰', '😍', '🤩']
    }
    else if k == 2 {
        seq!['😘', '😗', '☺', '😚', '😙', '😋', '😛', '😜']
    }
    else if k == 3 {
        seq!['🤪', '😝', '🤑', '🤗', '🤭', '🤫', '🤔', '🤐']
    }
    else if k == 4 {
        seq!['🤨', '😐', '😑', '😶', '😏', '😒', '🙄', '😬']
    }
    else if k == 5 {
        seq!['🤥', '😌', '😔', '😪', '🤤', '😴', '😷', '🤒']
    }
    else if k == 6 {
        seq!['🤕', '🤢', '🤮', '🤧', '🥵', '🥶', '🥴', '😵']
    }
    else if k == 7 {
        seq!['🤯', '🤠', '🥳', '😎', '🤓', '🧐', '😕', '😟']
    }
    else if k == 8 {
        seq!['🙁', '☹', '😮', '😯', '😲', '😳', '🥺', '😦']
    }
    else if k == 9 {
        seq!['😧', '😨', '😰', '😥', '😢', '😭', '😱', '😖']
    }
    else if k == 10 {
        seq!['😣', '😞', '😓', '😩', '😫', '🥱', '😤', '😡']
    }
    else if k == 11 {
        seq!['😠', '🤬', '😈', '👿', '💀', '☠', '💩', '🤡']
    }
    else if k == 12 {
        seq!['👹', '👺', '👻', '👽', '👾', '🤖']
    } else {
        Seq::empty()
    }
}

/// The first `rows` rows of [`emoji_chars`].
pub open spec fn emoji_prefix(rows: nat) -> Seq<char>
    decreases rows,
{
    if rows == 0 {
        Seq::empty()
    } else {
        emoji_prefix((rows - 1) as nat) + emoji_row(rows - 1)
    }
}

fn push_row(cs: &mut Vec<char>, row: &[char])
    ensures
        final(cs)@ == old(cs)@ + row@,
{
    let mut i: usize = 0;
    while i < row.len()
        invariant
            i <= row@.len(),
            cs@ == old(cs)@ + row@.take(i as int),
        decreases row@.len() - i,
    {
        cs.push(row[i]);
        i = i + 1;
        assert(cs@ =~= old(cs)@ + row@.take(i as int));
    }
    assert(row@.take(i as int) =~= row@);
}

/// The emojis the picker offers, in order, one character each (see
/// [`emoji_chars`]).
pub fn common_emojis() -> (r: Vec<String>)
    ensures
        r@.len() == emoji_chars().len(),
        forall|i: int| 0 <= i < r@.len() ==> (#[trigger] r@[i])@ == seq![emoji_chars()[i]],
{
    let mut cs: Vec<char> = Vec::new();
    assert(cs@ =~= emoji_prefix(0));
    push_row(&mut cs, &['😀', '😃', '😄', '😁', '😆', '😅', '🤣', '😂']);
    assert(cs@ =~= emoji_prefix(1));
    push_row(&mut cs, &['🙂', '🙃', '😉', '😊', '😇', '🥰', '😍', '🤩']);
    assert(cs@ =~= emoji_prefix(2));
    push_row(&mut cs, &['😘', '😗', '☺', '😚', '😙', '😋', '😛', '😜']);
    assert(cs@ =~= emoji_prefix(3));
    push_row(&mut cs, &['🤪', '😝', '🤑', '🤗', '🤭', '🤫', '🤔', '🤐']);
    assert(cs@ =~= emoji_prefix(4));
    push_row(&mut cs, &['🤨', '😐', '😑', '😶', '😏', '😒', '🙄', '😬']);
    assert(cs@ =~= emoji_prefix(5));
    push_row(&mut cs, &['🤥', '😌', '😔', '😪', '🤤', '😴', '😷', '🤒']);
    assert(cs@ =~= emoji_prefix(6));
    push_row(&mut cs, &['🤕', '🤢', '🤮', '🤧', '🥵', '🥶', '🥴', '😵']);
    assert(cs@ =~= emoji_prefix(7));
    push_row(&mut cs, &['🤯', '🤠', '🥳', '😎', '🤓', '🧐', '😕', '😟']);
    assert(cs@ =~= emoji_prefix(8));
    push_row(&mut cs, &['🙁', '☹', '😮', '😯', '😲', '😳', '🥺', '😦']);
    assert(cs@ =~= emoji_prefix(9));
    push_row(&mut cs, &['😧', '😨', '😰', '😥', '😢', '😭', '😱', '😖']);
    assert(cs@ =~= emoji_prefix(10));
    push_row(&mut cs, &['😣', '😞', '😓', '😩', '😫', '🥱', '😤', '😡']);
    assert(cs@ =~= emoji_prefix(11));
    push_row(&mut cs, &['😠', '🤬', '😈', '👿', '💀', '☠', '💩', '🤡']);
    assert(cs@ =~= emoji_prefix(12));
    push_row(&mut cs, &['👹', '👺', '👻', '👽', '👾', '🤖']);
    assert(cs@ =~= emoji_prefix(13));
    let mut out: Vec<String> = Vec::new();
    let mut i: usize = 0;
    while i < cs.len()
        invariant
            i <= cs@.len(),
            cs@ == emoji_chars(),
            out@.len() == i,
            forall|j: int| 0 <= j < i ==> (#[trigger] out@[j])@ == seq![emoji_chars()[j]],
        decreases cs@.len() - i,
    {
        let mut s = String::new();
        push_char(&mut s, cs[i]);
        assert(s@ =~= seq![emoji_chars()[i as int]]);
        out.push(s);
        i = i + 1;
    }
    out
}

/// The event an action of the picker emits: the chosen emoji goes to the
/// composer unchanged.
pub fn picker_event(action: &StickerPickerAction) -> (r: StickerPickerEvent)
    ensures
        match (action, r) {
            (StickerPickerAction::InsertEmoji(a), StickerPickerEvent::InsertEmoji(e)) => e@ == a@,
        },
{
    match action {
        StickerPickerAction::InsertEmoji(e) => StickerPickerEvent::InsertEmoji(crate::text::string_from(e.as_str())),
    }
}

} // verus!
