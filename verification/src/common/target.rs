//! The platforms that code is generated for.

use vstd::prelude::*;

verus! {

/// A target platform.
#[derive(Debug, Clone, Copy, PartialEq, Eq, Structural)]
pub enum Target {
    Linux,
    Macos,
}

impl Target {
    /// The assembly symbol of a name.
    pub open spec fn symbol(self, name: Seq<char>) -> Seq<char> {
        match self {
            Target::Linux => name,
            Target::Macos => "_"@ + name,
        }
    }

    /// The assembly symbol of a name: macOS puts an underscore in front.
    pub fn mangle_symbol(&self, name: &str) -> (symbol: String)
        ensures
            symbol@ == self.symbol(name@),
    {
        match self {
            Target::Linux => name.to_owned(),
            Target::Macos => {
                let mut symbol = "_".to_owned();
                symbol.append(name);
                symbol
            },
        }
    }
}

/// The symbol of a name is the name itself on Linux, and the name behind one
/// underscore on macOS; so different names have different symbols.
pub proof fn law_symbols(target: Target, a: Seq<char>, b: Seq<char>)
    ensures
        target == Target::Linux ==> target.symbol(a) == a,
        target == Target::Macos ==> {
            &&& target.symbol(a).len() == a.len() + 1
            &&& target.symbol(a)[0] == '_'
            &&& target.symbol(a).skip(1) == a
        },
        target.symbol(a) == target.symbol(b) ==> a == b,
{
    reveal_strlit("_");
    assert(("_"@ + a).skip(1) =~= a);
    assert(("_"@ + b).skip(1) =~= b);
}

} // verus!
