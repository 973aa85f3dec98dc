use vstd::prelude::*;

verus! {

/// The text of the path made of `segments`: each one after the last, with a `/` between
/// them unless the text so far already ends in one.
pub open spec fn path_text(segments: Seq<Seq<char>>) -> Seq<char>
    decreases segments.len(),
{
    if segments.len() == 0 {
        Seq::empty()
    } else {
        join_text(path_text(segments.drop_last()), segments.last())
    }
}

/// `segment` added after the path text `base`.
pub open spec fn join_text(base: Seq<char>, segment: Seq<char>) -> Seq<char> {
    if base.len() == 0 || base.last() == '/' {
        base + segment
    } else {
        base + seq!['/'] + segment
    }
}

/// A filesystem location made of segments, composed without touching the filesystem.
pub struct PathWrapper {
    segments: Vec<String>,
}

impl View for PathWrapper {
    type V = Seq<Seq<char>>;

    closed spec fn view(&self) -> Seq<Seq<char>> {
        Seq::new(self.segments@.len(), |i: int| self.segments@[i]@)
    }
}

impl PathWrapper {
    /// The empty path.
    pub fn new() -> (r: PathWrapper)
        ensures
            r@ == Seq::<Seq<char>>::empty(),
    {
        let r = PathWrapper { segments: Vec::new() };
        assert(r@ =~= Seq::<Seq<char>>::empty());
        r
    }

    /// The path that starts at `root`.
    pub fn from_root(root: &str) -> (r: PathWrapper)
        ensures
            r@ == seq![root@],
    {
        let mut segments: Vec<String> = Vec::new();
        segments.push(root.to_owned());
        let r = PathWrapper { segments };
        assert(r@ =~= seq![root@]);
        r
    }

    /// This path with `segment` added at its end.
    pub fn join(&self, segment: &str) -> (r: PathWrapper)
        ensures
            r@ == self@.push(segment@),
    {
        let mut segments: Vec<String> = Vec::new();
        let mut i: usize = 0;
        while i < self.segments.len()
            invariant
                0 <= i <= self.segments.len(),
                segments@.len() == i,
                forall|j: int| 0 <= j < i ==> #[trigger] segments@[j]@ == self.segments@[j]@,
            decreases self.segments.len() - i,
        {
            segments.push(self.segments[i].clone());
            i = i + 1;
        }
        segments.push(segment.to_owned());
        let r = PathWrapper { segments };
        assert(r@ =~= self@.push(segment@));
        r
    }

    /// The text of this path.
    pub fn to_path(&self) -> (r: String)
        ensures
            r@ == path_text(self@),
    {
        let mut text = String::new();
        let mut i: usize = 0;
        while i < self.segments.len()
            invariant
                0 <= i <= self.segments.len(),
                text@ == path_text(self@.take(i as int)),
            decreases self.segments.len() - i,
        {
            let segment = self.segments[i].as_str();
            proof {
                assert(self@.take(i + 1).drop_last() =~= self@.take(i as int));
                assert(self@.take(i + 1).last() == segment@);
            }
            let n = text.as_str().unicode_len();
            if n == 0 {
                text.append(segment);
            } else if text.as_str().get_char(n - 1) == '/' {
                text.append(segment);
            } else {
                text.append("/");
                proof {
                    reveal_strlit("/");
                }
                text.append(segment);
            }
            i = i + 1;
        }
        assert(self@.take(self.segments.len() as int) =~= self@);
        text
    }
}

} // verus!
