//! A small sequential key-matching machine: walks raw JSON bytes key by key,
//! deepening on each full key match and backing out on a closing brace, and
//! returns the raw value text after the last key.

use vstd::prelude::*;

verus! {

/// What one search step decides: descend past a matched key by the given
/// offset, back out at a closing brace by the given offset, or give up at
/// the end of the data.
#[derive(Debug)]
pub enum Instruction {
    IncreaseDepth(usize),
    DecreaseDepth(usize),
    EOF,
}

/// The walker: the keys still to match, the nesting depth reached so far,
/// and the byte position the search continues from.
pub struct Machine<'a> {
    pub keys: Vec<&'a [u8]>,
    pub depth: usize,
    pub pointer: usize,
}

/// What scanning one window decides: the window at `i` either runs into a
/// closing brace (back out), mismatches the key (no decision, try the next
/// window), or matches the key in full (descend).
pub open spec fn spec_scan_window(key: Seq<u8>, data: Seq<u8>, i: int, j: int) -> Option<
    (bool, int),
>
    decreases key.len() - j,
{
    if j < 0 || j >= key.len() {
        Some((true, i + key.len()))
    } else if data[i + j] == 125 {
        Some((false, i + j))
    } else if data[i + j] != key[j] {
        None
    } else {
        spec_scan_window(key, data, i, j + 1)
    }
}

/// What searching for `key` from window `i` on decides: `(true, offset)` to
/// descend, `(false, offset)` to back out, or `None` at the end of the data.
/// Windows run up to (exclusive) `data.len() - key.len()`.
pub open spec fn spec_get_key(key: Seq<u8>, data: Seq<u8>, i: int) -> Option<(bool, int)>
    decreases data.len() - key.len() - i,
{
    if i < 0 || i >= data.len() - key.len() {
        None
    } else {
        match spec_scan_window(key, data, i, 0) {
            Some(r) => Some(r),
            None => spec_get_key(key, data, i + 1),
        }
    }
}

proof fn lemma_scan_window_range(key: Seq<u8>, data: Seq<u8>, i: int, j: int)
    requires
        0 <= i,
        0 <= j <= key.len(),
        i < data.len() - key.len(),
    ensures
        match spec_scan_window(key, data, i, j) {
            Some((b, off)) => (if b {
                off == i + key.len()
            } else {
                i <= off < i + key.len()
            }) && off < data.len(),
            None => true,
        },
    decreases key.len() - j,
{
    if !(j < 0 || j >= key.len()) && data[i + j] != 125 && data[i + j] == key[j] {
        lemma_scan_window_range(key, data, i, j + 1);
    }
}

/// A decision's offset stays inside the data, and a descend offset covers at
/// least the key.
pub proof fn lemma_get_key_range(key: Seq<u8>, data: Seq<u8>, i: int)
    requires
        0 <= i,
        key.len() >= 1,
    ensures
        match spec_get_key(key, data, i) {
            Some((b, off)) => 0 <= off < data.len() && (b ==> off >= key.len()),
            None => true,
        },
    decreases data.len() - key.len() - i,
{
    if !(i < 0 || i >= data.len() - key.len()) {
        lemma_scan_window_range(key, data, i, 0);
        if spec_scan_window(key, data, i, 0) is None {
            lemma_get_key_range(key, data, i + 1);
        }
    }
}

/// Searches `data_bytes` for `key` window by window: a closing brace inside
/// a window backs out, a full match descends, the end of the data gives up.
#[verifier::loop_isolation(false)]
pub fn get_key(key: &[u8], data_bytes: &[u8]) -> (r: Instruction)
    requires
        key@.len() <= data_bytes@.len(),
    ensures
        match r {
            Instruction::IncreaseDepth(off) => spec_get_key(key@, data_bytes@, 0) == Some(
                (true, off as int),
            ),
            Instruction::DecreaseDepth(off) => spec_get_key(key@, data_bytes@, 0) == Some(
                (false, off as int),
            ),
            Instruction::EOF => spec_get_key(key@, data_bytes@, 0) is None,
        },
{
    let key_length = key.len();
    let n = data_bytes.len();
    let mut i: usize = 0;
    while i < n - key_length
        invariant
            0 <= i,
            spec_get_key(key@, data_bytes@, 0) == spec_get_key(key@, data_bytes@, i as int),
        decreases n - key_length - i,
    {
        let mut j: usize = 0;
        let mut outcome: Option<Instruction> = None;
        while j < key_length
            invariant
                0 <= j <= key_length,
                i < n - key_length,
                match outcome {
                    None => spec_scan_window(key@, data_bytes@, i as int, 0) == spec_scan_window(
                        key@,
                        data_bytes@,
                        i as int,
                        j as int,
                    ),
                    Some(ins) => match ins {
                        Instruction::DecreaseDepth(off) => spec_scan_window(
                            key@,
                            data_bytes@,
                            i as int,
                            0,
                        ) == Some((false, off as int)) && j == key_length,
                        Instruction::EOF => spec_scan_window(key@, data_bytes@, i as int, 0)
                            is None && j == key_length,
                        _ => false,
                    },
                },
            decreases key_length - j,
        {
            if data_bytes[i + j] == 125 {
                outcome = Some(Instruction::DecreaseDepth(i + j));
                j = key_length;
            } else if data_bytes[i + j] != key[j] {
                outcome = Some(Instruction::EOF);
                j = key_length;
            } else {
                j += 1;
            }
        }
        match outcome {
            None => {
                return Instruction::IncreaseDepth(i + key_length);
            },
            Some(ins) => {
                match ins {
                    Instruction::DecreaseDepth(off) => {
                        return Instruction::DecreaseDepth(off);
                    },
                    _ => {},
                }
            },
        }
        i += 1;
    }
    Instruction::EOF
}

/// The walk through the whole key list: from `depth` and `pointer`, searches
/// for the current key, descends or backs out by the decided offset, and
/// yields the byte position reached when every key has been matched.  A
/// back-out at depth `0`, a search that reaches the end of the data, and an
/// empty key (on which the search cannot advance) all yield nothing.
pub open spec fn spec_walk(keys: Seq<Seq<u8>>, data: Seq<u8>, depth: int, pointer: int) -> Option<
    int,
>
    decreases data.len() - pointer, depth + 1,
    via spec_walk_decreases
{
    if depth >= keys.len() {
        Some(pointer)
    } else if depth < 0 || pointer < 0 || pointer > data.len() || keys[depth].len() == 0 {
        None
    } else {
        match spec_get_key(keys[depth], data.skip(pointer), 0) {
            None => None,
            Some((descend, off)) => if descend {
                spec_walk(keys, data, depth + 1, pointer + off)
            } else {
                if depth == 0 {
                    None
                } else {
                    spec_walk(keys, data, depth - 1, pointer + off)
                }
            },
        }
    }
}

#[via_fn]
proof fn spec_walk_decreases(keys: Seq<Seq<u8>>, data: Seq<u8>, depth: int, pointer: int) {
    if 0 <= depth < keys.len() && 0 <= pointer <= data.len() && keys[depth].len() >= 1 {
        lemma_get_key_range(keys[depth], data.skip(pointer), 0);
    }
}

/// The first position `>= k` holding a closing brace or a comma, the
/// delimiters that end the raw value text.
pub open spec fn spec_find_delim(data: Seq<u8>, k: int) -> Option<int>
    decreases data.len() - k,
{
    if k < 0 || k >= data.len() {
        None
    } else if data[k] == 125 || data[k] == 44 {
        Some(k)
    } else {
        spec_find_delim(data, k + 1)
    }
}

/// What a whole extraction yields: the raw bytes between the position one
/// past the walk's end (skipping the colon) and the next delimiter.
pub open spec fn spec_extract(keys: Seq<Seq<u8>>, data: Seq<u8>, depth: int, pointer: int) -> Option<
    Seq<u8>,
> {
    match spec_walk(keys, data, depth, pointer) {
        None => None,
        Some(p) => match spec_find_delim(data, p + 1) {
            None => None,
            Some(e) => Some(data.subrange(p + 1, e)),
        },
    }
}

/// The total byte length of the first `i` keys.
pub open spec fn keys_len_sum(keys: Seq<Seq<u8>>, i: int) -> int
    decreases i,
{
    if i <= 0 {
        0
    } else {
        keys_len_sum(keys, i - 1) + keys[i - 1].len()
    }
}

impl<'a> Machine<'a> {
    /// A machine that still has all its keys to match, starting at the
    /// beginning of the data.
    pub fn new(keys: Vec<&'a [u8]>) -> (r: Machine<'a>)
        ensures
            r.keys == keys,
            r.depth == 0,
            r.pointer == 0,
    {
        Machine { keys, depth: 0, pointer: 0 }
    }

    /// Walks the keys through `data_bytes` and returns the raw value text
    /// after the last key, up to the next comma or closing brace; nothing
    /// when some key cannot be found, the walk backs out past the root, or
    /// no delimiter follows the value.  On success the machine has matched
    /// every key (its depth equals the key count) and its pointer is the
    /// byte position the walk reached.
    ///
    /// Every key must be nonempty: an empty key is descended past without
    /// advancing the pointer, so a walk that then backs out at a closing
    /// brace oscillates in place and need not terminate.  The machine must
    /// not already have matched past its key list (fresh machines start at
    /// depth `0`).
    #[verifier::loop_isolation(false)]
    pub fn extract(&mut self, data_bytes: &'a [u8]) -> (r: Option<&'a [u8]>)
        requires
            forall|k: int|
                0 <= k < old(self).keys@.len() ==> #[trigger] old(self).keys@[k]@.len() >= 1,
            keys_len_sum(
                old(self).keys@.map_values(|s: &[u8]| s@),
                old(self).keys@.len() as int,
            ) < data_bytes@.len(),
            data_bytes@.len() > 0,
            data_bytes@[0] == 123,
            old(self).pointer <= data_bytes@.len(),
            old(self).depth <= old(self).keys@.len(),
        ensures
            final(self).keys == old(self).keys,
            match r {
                Some(v) => spec_extract(
                    old(self).keys@.map_values(|s: &[u8]| s@),
                    data_bytes@,
                    old(self).depth as int,
                    old(self).pointer as int,
                ) == Some(v@) && final(self).depth == final(self).keys@.len() && spec_walk(
                    old(self).keys@.map_values(|s: &[u8]| s@),
                    data_bytes@,
                    old(self).depth as int,
                    old(self).pointer as int,
                ) == Some(final(self).pointer as int),
                None => spec_extract(
                    old(self).keys@.map_values(|s: &[u8]| s@),
                    data_bytes@,
                    old(self).depth as int,
                    old(self).pointer as int,
                ) is None,
            },
    {
        let ghost kviews = self.keys@.map_values(|s: &[u8]| s@);
        let n = data_bytes.len();
        let nk = self.keys.len();
        while self.depth < nk
            invariant
                self.keys == old(self).keys,
                self.depth <= nk,
                self.pointer <= n,
                spec_walk(kviews, data_bytes@, old(self).depth as int, old(self).pointer as int)
                    == spec_walk(kviews, data_bytes@, self.depth as int, self.pointer as int),
            decreases n - self.pointer, self.depth + 1,
        {
            let key = self.keys[self.depth];
            proof {
                assert(kviews[self.depth as int] == key@);
            }
            if key.len() > n - self.pointer {
                proof {
                    assert(spec_get_key(key@, data_bytes@.skip(self.pointer as int), 0) is None);
                }
                return None;
            }
            let sub = vstd::slice::slice_subrange(data_bytes, self.pointer, n);
            let step = get_key(key, sub);
            proof {
                lemma_get_key_range(key@, sub@, 0);
            }
            match step {
                Instruction::EOF => {
                    return None;
                },
                Instruction::DecreaseDepth(offset) => {
                    if self.depth == 0 {
                        return None;
                    }
                    self.depth = self.depth - 1;
                    self.pointer = self.pointer + offset;
                },
                Instruction::IncreaseDepth(offset) => {
                    self.depth = self.depth + 1;
                    self.pointer = self.pointer + offset;
                },
            }
        }
        if self.pointer >= n {
            return None;
        }
        let value_start = self.pointer + 1;
        let mut k = value_start;
        proof {
            assert(spec_walk(kviews, data_bytes@, self.depth as int, self.pointer as int) == Some(
                self.pointer as int,
            ));
        }
        while k < n
            invariant
                value_start <= k,
                spec_find_delim(data_bytes@, value_start as int) == spec_find_delim(
                    data_bytes@,
                    k as int,
                ),
            decreases n - k,
        {
            let b = data_bytes[k];
            if b == 125 || b == 44 {
                return Some(vstd::slice::slice_subrange(data_bytes, value_start, k));
            }
            k += 1;
        }
        None
    }
}

} // verus!
