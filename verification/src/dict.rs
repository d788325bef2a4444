//! The substitution dictionaries that undo the site's font and image
//! obfuscation, loaded from their text assets.

use vstd::prelude::*;
use crate::text::{
    chars_of, from_chars, split_chars, split_once_chars, split_once_spec, split_spec, str_eq,
    trim_chars, trim_spec, views,
};

verus! {

/// A string-to-string map with unique keys; a later insert replaces the value.
pub struct FanpaDict {
    keys: Vec<String>,
    vals: Vec<String>,
}

impl View for FanpaDict {
    type V = Map<Seq<char>, Seq<char>>;

    closed spec fn view(&self) -> Map<Seq<char>, Seq<char>> {
        Map::new(
            |k: Seq<char>| exists|i: int| 0 <= i < self.keys@.len() && #[trigger] self.keys@[i]@ == k,
            |k: Seq<char>| self.vals@[choose|i: int| 0 <= i < self.keys@.len() && #[trigger] self.keys@[i]@ == k]@,
        )
    }
}

impl FanpaDict {
    #[verifier::type_invariant]
    spec fn wf(&self) -> bool {
        &&& self.keys@.len() == self.vals@.len()
        &&& forall|i: int, j: int|
            0 <= i < self.keys@.len() && 0 <= j < self.keys@.len() && i != j
                ==> #[trigger] self.keys@[i]@ != #[trigger] self.keys@[j]@
    }

    /// An empty dictionary.
    pub fn new() -> (res: Self)
        ensures
            res@ == Map::<Seq<char>, Seq<char>>::empty(),
    {
        let d = FanpaDict { keys: Vec::new(), vals: Vec::new() };
        assert(d@ =~= Map::<Seq<char>, Seq<char>>::empty());
        d
    }

    fn index_of(&self, key: &str) -> (res: Option<usize>)
        ensures
            match res {
                Some(i) => i < self.keys@.len() && self.keys@[i as int]@ == key@,
                None => forall|i: int| 0 <= i < self.keys@.len() ==> self.keys@[i]@ != key@,
            },
    {
        let mut i: usize = 0;
        while i < self.keys.len()
            invariant
                i <= self.keys@.len(),
                forall|k: int| 0 <= k < i ==> self.keys@[k]@ != key@,
            decreases self.keys.len() - i,
        {
            if str_eq(self.keys[i].as_str(), key) {
                return Some(i);
            }
            i = i + 1;
        }
        None
    }

    /// The value stored for `key`.
    pub fn get(&self, key: &str) -> (res: Option<String>)
        ensures
            match res {
                Some(v) => self@.contains_key(key@) && self@[key@] == v@,
                None => !self@.contains_key(key@),
            },
    {
        proof {
            use_type_invariant(self);
        }
        match self.index_of(key) {
            Some(i) => {
                let ghost k = key@;
                assert(self@.contains_key(k));
                let ghost c = choose|j: int| 0 <= j < self.keys@.len() && #[trigger] self.keys@[j]@ == k;
                assert(c == i);
                Some(self.vals[i].clone())
            },
            None => None,
        }
    }

    /// Sets `key` to `value`, replacing any earlier value.
    pub fn insert(&mut self, key: String, value: String)
        ensures
            final(self)@ == old(self)@.insert(key@, value@),
    {
        proof {
            use_type_invariant(&*self);
        }
        let ghost old_map = self@;
        let ghost kv = key@;
        let ghost vv = value@;
        match self.index_of(key.as_str()) {
            Some(i) => {
                let mut vals = self.vals.clone();
                vals.set(i, value);
                let keys = self.keys.clone();
                *self = FanpaDict { keys, vals };
                assert forall|k: Seq<char>| #[trigger] self@.contains_key(k) == old_map.insert(kv, vv).contains_key(k) by {}
                assert forall|k: Seq<char>| self@.contains_key(k) implies #[trigger] self@[k] == old_map.insert(kv, vv)[k] by {
                    let c = choose|j: int| 0 <= j < self.keys@.len() && #[trigger] self.keys@[j]@ == k;
                    if k == kv {
                        assert(c == i);
                    } else {
                        assert(old_map.contains_key(k));
                        let c2 = choose|j: int| 0 <= j < old(self).keys@.len() && #[trigger] old(self).keys@[j]@ == k;
                        assert(c == c2);
                    }
                }
                assert(self@ =~= old_map.insert(kv, vv));
            },
            None => {
                let mut keys = self.keys.clone();
                let mut vals = self.vals.clone();
                keys.push(key);
                vals.push(value);
                let n = keys.len() - 1;
                *self = FanpaDict { keys, vals };
                assert forall|k: Seq<char>| #[trigger] self@.contains_key(k) == old_map.insert(kv, vv).contains_key(k) by {
                    if k == kv {
                        assert(self.keys@[n as int]@ == k);
                    } else if old_map.contains_key(k) {
                        let c2 = choose|j: int| 0 <= j < old(self).keys@.len() && #[trigger] old(self).keys@[j]@ == k;
                        assert(self.keys@[c2]@ == k);
                    }
                }
                assert forall|k: Seq<char>| self@.contains_key(k) implies #[trigger] self@[k] == old_map.insert(kv, vv)[k] by {
                    let c = choose|j: int| 0 <= j < self.keys@.len() && #[trigger] self.keys@[j]@ == k;
                    if k == kv {
                        assert(c == n);
                    } else {
                        assert(old_map.contains_key(k));
                        let c2 = choose|j: int| 0 <= j < old(self).keys@.len() && #[trigger] old(self).keys@[j]@ == k;
                        assert(c == c2);
                    }
                }
                assert(self@ =~= old_map.insert(kv, vv));
            },
        }
    }
}

} // verus!

verus! {

/// The dictionary built from `lines`: each line that contains `sep` is split
/// at its first `sep` into two trimmed halves; with `key_first` the first half
/// is the key, otherwise the second. Later lines replace earlier ones.
pub open spec fn dict_from_lines(lines: Seq<Seq<char>>, sep: char, key_first: bool) -> Map<Seq<char>, Seq<char>>
    decreases lines.len(),
{
    if lines.len() == 0 {
        Map::empty()
    } else {
        let m = dict_from_lines(lines.drop_last(), sep, key_first);
        match split_once_spec(lines.last(), seq![sep]) {
            Some((a, b)) => if key_first {
                m.insert(trim_spec(a), trim_spec(b))
            } else {
                m.insert(trim_spec(b), trim_spec(a))
            },
            None => m,
        }
    }
}

fn dict_from_text(text: &str, sep: char, key_first: bool) -> (res: FanpaDict)
    ensures
        res@ == dict_from_lines(split_spec(text@, seq!['\n']), sep, key_first),
{
    let nl: [char; 1] = ['\n'];
    let sp: [char; 1] = [sep];
    assert(nl@ =~= seq!['\n']);
    assert(sp@ =~= seq![sep]);
    let cs = chars_of(text);
    let lines = split_chars(cs.as_slice(), &nl);
    let ghost lv = views(lines@);
    let mut dict = FanpaDict::new();
    let mut i: usize = 0;
    while i < lines.len()
        invariant
            i <= lines.len(),
            lv == views(lines@),
            lv == split_spec(text@, seq!['\n']),
            sp@ == seq![sep],
            dict@ == dict_from_lines(lv.take(i as int), sep, key_first),
        decreases lines.len() - i,
    {
        assert(lv.take(i + 1).drop_last() =~= lv.take(i as int));
        assert(lv.take(i + 1).last() == lines@[i as int]@);
        match split_once_chars(lines[i].as_slice(), &sp) {
            Some((a, b)) => {
                let ta = from_chars(trim_chars(a.as_slice()).as_slice());
                let tb = from_chars(trim_chars(b.as_slice()).as_slice());
                if key_first {
                    dict.insert(ta, tb);
                } else {
                    dict.insert(tb, ta);
                }
            },
            None => {},
        }
        i = i + 1;
    }
    assert(lv.take(lines.len() as int) =~= lv);
    dict
}

/// Image-obfuscation dictionary: each asset line is `<word> <image path>`; the
/// map goes from the trimmed image path to the trimmed word.
pub fn init_img_fanpa_dict(source: &str) -> (res: FanpaDict)
    ensures
        res@ == dict_from_lines(split_spec(source@, seq!['\n']), ' ', false),
{
    dict_from_text(source, ' ', false)
}

/// Font-obfuscation dictionary: each asset line is `<code>\t<character>`; the
/// map goes from the trimmed code to the trimmed character.
pub fn init_font_fanpa_dict(source: &str) -> (res: FanpaDict)
    ensures
        res@ == dict_from_lines(split_spec(source@, seq!['\n']), '\t', true),
{
    dict_from_text(source, '\t', true)
}

} // verus!
