//! Names under which the files of a song are stored.
//!
//! Everything that belongs to a song lies under the identifier of the song:
//! its previews as `{song}/{index}.wav`, counted from zero, and its cover
//! as `{song}/{song}.png`.

use vstd::prelude::*;
use vstd::string::StringExecFns;

verus! {

/// The character of a decimal digit.
pub open spec fn spec_digit(digit: nat) -> char {
    if digit == 0 {
        '0'
    } else if digit == 1 {
        '1'
    } else if digit == 2 {
        '2'
    } else if digit == 3 {
        '3'
    } else if digit == 4 {
        '4'
    } else if digit == 5 {
        '5'
    } else if digit == 6 {
        '6'
    } else if digit == 7 {
        '7'
    } else if digit == 8 {
        '8'
    } else {
        '9'
    }
}

/// A number in decimal, without leading zeros.
pub open spec fn spec_decimal(n: nat) -> Seq<char>
    decreases n,
{
    if n < 10 {
        seq![spec_digit(n)]
    } else {
        spec_decimal(n / 10).push(spec_digit(n % 10))
    }
}

/// The name of the preview with the given index.
pub open spec fn spec_segment_key(song_id: Seq<char>, index: nat) -> Seq<char> {
    song_id + seq!['/'] + spec_decimal(index) + seq!['.', 'w', 'a', 'v']
}

/// The name of the cover image.
pub open spec fn spec_cover_key(song_id: Seq<char>) -> Seq<char> {
    song_id + seq!['/'] + song_id + seq!['.', 'p', 'n', 'g']
}

fn digit_text(digit: u32) -> (text: &'static str)
    requires
        digit < 10,
    ensures
        text@ == seq![spec_digit(digit as nat)],
{
    proof {
        reveal_strlit("0");
        reveal_strlit("1");
        reveal_strlit("2");
        reveal_strlit("3");
        reveal_strlit("4");
        reveal_strlit("5");
        reveal_strlit("6");
        reveal_strlit("7");
        reveal_strlit("8");
        reveal_strlit("9");
    }
    let text = if digit == 0 {
        "0"
    } else if digit == 1 {
        "1"
    } else if digit == 2 {
        "2"
    } else if digit == 3 {
        "3"
    } else if digit == 4 {
        "4"
    } else if digit == 5 {
        "5"
    } else if digit == 6 {
        "6"
    } else if digit == 7 {
        "7"
    } else if digit == 8 {
        "8"
    } else {
        "9"
    };
    assert(text@ =~= seq![spec_digit(digit as nat)]);
    text
}

/// Writes a number in decimal.
pub fn decimal(n: u32) -> (text: String)
    ensures
        text@ == spec_decimal(n as nat),
    decreases n,
{
    if n < 10 {
        String::from_str(digit_text(n))
    } else {
        let mut text = decimal(n / 10);
        text.append(digit_text(n % 10));
        assert(text@ =~= spec_decimal(n as nat));
        text
    }
}

/// The name under which the preview with the given index is stored.
pub fn segment_key(song_id: &str, index: u32) -> (key: String)
    ensures
        key@ == spec_segment_key(song_id@, index as nat),
{
    proof {
        reveal_strlit("/");
        reveal_strlit(".wav");
    }
    let mut key = String::from_str(song_id);
    key.append("/");
    let number = decimal(index);
    key.append(number.as_str());
    key.append(".wav");
    assert(key@ =~= spec_segment_key(song_id@, index as nat));
    key
}

/// The name under which the cover image of a song is stored.
pub fn cover_key(song_id: &str) -> (key: String)
    ensures
        key@ == spec_cover_key(song_id@),
{
    proof {
        reveal_strlit("/");
        reveal_strlit(".png");
    }
    let mut key = String::from_str(song_id);
    key.append("/");
    key.append(song_id);
    key.append(".png");
    assert(key@ =~= spec_cover_key(song_id@));
    key
}

/// The names of the first `count` previews of a song, in order.
pub fn segment_keys(song_id: &str, count: u32) -> (keys: Vec<String>)
    ensures
        keys@.len() == count,
        forall|i: int|
            0 <= i < count ==> (#[trigger] keys@[i])@ == spec_segment_key(song_id@, i as nat),
{
    let mut keys: Vec<String> = Vec::new();
    let mut index: u32 = 0;
    while index < count
        invariant
            index <= count,
            keys@.len() == index,
            forall|i: int|
                0 <= i < index ==> (#[trigger] keys@[i])@ == spec_segment_key(song_id@, i as nat),
        decreases count - index,
    {
        keys.push(segment_key(song_id, index));
        index = index + 1;
    }
    keys
}

} // verus!
