//! Newtypes that give a value its own rendering.
use vstd::prelude::*;

verus! {

/// The mask that stands for every password.
pub open spec fn mask() -> Seq<char> {
    "****************"@
}

/// A password, which renders as a fixed mask whatever it holds.
pub struct Password(pub String);

impl Password {
    pub fn to_string(&self) -> (r: String)
        ensures
            r@ == mask(),
    {
        "****************".to_owned()
    }
}

/// The items, separated by `sep`.
pub open spec fn joined(items: Seq<Seq<char>>, sep: Seq<char>) -> Seq<char>
    decreases items.len(),
{
    if items.len() == 0 {
        Seq::empty()
    } else if items.len() == 1 {
        items[0]
    } else {
        joined(items.drop_last(), sep) + sep + items.last()
    }
}

/// A list of strings, which renders as `[a, b, c]`.
pub struct Wrapper(pub Vec<String>);

impl Wrapper {
    pub open spec fn items(&self) -> Seq<Seq<char>> {
        self.0@.map_values(|s: String| s@)
    }

    pub fn to_string(&self) -> (r: String)
        ensures
            r@ == "["@ + joined(self.items(), ", "@) + "]"@,
    {
        let mut out = String::new();
        out.append("[");
        let mut i: usize = 0;
        while i < self.0.len()
            invariant
                i <= self.0@.len(),
                out@ == "["@ + joined(self.items().subrange(0, i as int), ", "@),
            decreases self.0@.len() - i,
        {
            let ghost before = self.items().subrange(0, i as int);
            if i > 0 {
                out.append(", ");
            }
            out.append(self.0[i].as_str());
            i = i + 1;
            proof {
                let now = self.items().subrange(0, i as int);
                assert(now.drop_last() =~= before);
                if i == 1 {
                    assert(before.len() == 0);
                    assert(out@ =~= "["@ + now[0]);
                } else {
                    assert(out@ =~= "["@ + (joined(before, ", "@) + ", "@ + now.last()));
                }
            }
        }
        assert(self.items().subrange(0, i as int) =~= self.items());
        out.append("]");
        out
    }
}

} // verus!
