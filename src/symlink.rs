use vstd::prelude::*;

verus! {

/// A legacy location that is a symbolic link into the merged `/usr` tree:
/// manifest paths under `src` are rewritten to lie under `dst`.
#[derive(Clone, Debug)]
pub struct Symlink {
    pub src: String,
    pub dst: String,
}

impl Symlink {
    pub fn new(src: &str, dst: &str) -> (r: Symlink)
        ensures
            r.src@ == src@,
            r.dst@ == dst@,
    {
        Symlink { src: String::from_str(src), dst: String::from_str(dst) }
    }

    pub fn src(&self) -> (r: &str)
        ensures
            r@ == self.src@,
    {
        self.src.as_str()
    }

    pub fn dst(&self) -> (r: &str)
        ensures
            r@ == self.dst@,
    {
        self.dst.as_str()
    }
}

} // verus!
