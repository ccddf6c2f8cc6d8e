use vstd::prelude::*;

verus! {

/// The keyboard keys that stand for keypad keys `0x0` to `0xF`, in that
/// order: four rows of four keys on the left of a QWERTY keyboard.
pub open spec fn key_layout() -> Seq<char> {
    seq!['1', '2', '3', '4', 'q', 'w', 'e', 'r', 'a', 's', 'd', 'f', 'z', 'x', 'c', 'v']
}

/// The keypad key that keyboard key `c` stands for, if any.
pub fn key_index_of(c: char) -> (r: Option<u8>)
    ensures
        match r {
            Some(k) => k < 16 && key_layout()[k as int] == c,
            None => forall|k: int| 0 <= k < 16 ==> key_layout()[k] != c,
        },
{
    let layout: [char; 16] = [
        '1', '2', '3', '4', 'q', 'w', 'e', 'r', 'a', 's', 'd', 'f', 'z', 'x', 'c', 'v',
    ];
    assert(layout@ =~= key_layout());
    let mut k: usize = 0;
    while k < 16
        invariant
            k <= 16,
            layout@ == key_layout(),
            forall|j: int| 0 <= j < k ==> key_layout()[j] != c,
        decreases 16 - k,
    {
        if layout[k] == c {
            return Some(k as u8);
        }
        k = k + 1;
    }
    None
}

} // verus!
