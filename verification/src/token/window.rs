//! The four-layer context window: System and Compressed are kept, Structured and Linear
//! may be compressed.
use vstd::prelude::*;
use crate::text::{lemma_names_push, names_view, owned};

verus! {

/// A layer of the context window.
#[derive(PartialEq, Eq, Structural, Clone, Copy, Debug)]
pub enum Layer {
    System,
    Compressed,
    Structured,
    Linear,
}

/// Token estimate of one message: every four characters make one token (rounded down).
pub open spec fn message_tokens(m: Seq<char>) -> int {
    m.len() as int / 4
}

/// Sum of the token estimates of `msgs`.
pub open spec fn tokens_of(msgs: Seq<Seq<char>>) -> int
    decreases msgs.len(),
{
    if msgs.len() == 0 { 0 } else { tokens_of(msgs.drop_last()) + message_tokens(msgs.last()) }
}

/// Messages of one layer.
#[derive(Debug)]
pub struct ContextLayer {
    pub name: String,
    pub messages: Vec<String>,
    pub compressible: bool,
}

impl ContextLayer {
    /// The layer's messages as character sequences.
    pub open spec fn msgs(&self) -> Seq<Seq<char>> {
        names_view(self.messages@)
    }

    /// Estimated tokens of the layer: a quarter of each message's character count, summed.
    pub fn token_estimate(&self) -> (n: u32)
        requires
            tokens_of(self.msgs()) <= u32::MAX,
        ensures
            n == tokens_of(self.msgs()),
    {
        let mut total: u32 = 0;
        let mut i: usize = 0;
        while i < self.messages.len()
            invariant
                i <= self.messages.len(),
                tokens_of(self.msgs()) <= u32::MAX,
                total == tokens_of(self.msgs().subrange(0, i as int)),
            decreases self.messages.len() - i,
        {
            proof {
                let s = self.msgs().subrange(0, i + 1);
                assert(s.drop_last() =~= self.msgs().subrange(0, i as int));
                assert(s.last() == self.messages@[i as int]@);
                lemma_tokens_prefix(self.msgs(), i + 1);
                lemma_tokens_prefix(self.msgs(), i as int);
            }
            let t = crate::text::chars_of(self.messages[i].as_str()).len() / 4;
            total = total + t as u32;
            i = i + 1;
        }
        assert(self.msgs().subrange(0, i as int) =~= self.msgs());
        total
    }
}

/// Token estimates only grow along a sequence of messages.
proof fn lemma_tokens_prefix(msgs: Seq<Seq<char>>, k: int)
    requires
        0 <= k <= msgs.len(),
    ensures
        0 <= tokens_of(msgs.subrange(0, k)) <= tokens_of(msgs),
    decreases msgs.len(),
{
    if msgs.len() > 0 {
        if k == msgs.len() {
            assert(msgs.subrange(0, k) =~= msgs);
            lemma_tokens_prefix(msgs.drop_last(), k - 1);
            assert(msgs.drop_last().subrange(0, k - 1) =~= msgs.drop_last());
        } else {
            lemma_tokens_prefix(msgs.drop_last(), k);
            assert(msgs.drop_last().subrange(0, k) =~= msgs.subrange(0, k));
        }
    }
}

/// Copies of the strings of `v`.
fn copy_all(v: &Vec<String>) -> (r: Vec<String>)
    ensures
        names_view(r@) == names_view(v@),
{
    let mut r: Vec<String> = Vec::new();
    let mut i: usize = 0;
    while i < v.len()
        invariant
            i <= v.len(),
            names_view(r@) == names_view(v@).subrange(0, i as int),
        decreases v.len() - i,
    {
        let c = owned(v[i].as_str());
        assert(names_view(v@)[i as int] == c@);
        proof { lemma_names_push(r@, c); }
        r.push(c);
        i = i + 1;
        assert(names_view(r@) =~= names_view(v@).subrange(0, i as int));
    }
    assert(names_view(v@).subrange(0, v.len() as int) =~= names_view(v@));
    r
}

/// Appends copies of the strings of `v` to `out`.
fn extend_copies(out: &mut Vec<String>, v: &Vec<String>)
    ensures
        names_view(final(out)@) == names_view(old(out)@) + names_view(v@),
{
    let mut i: usize = 0;
    while i < v.len()
        invariant
            i <= v.len(),
            names_view(out@) == names_view(old(out)@) + names_view(v@).subrange(0, i as int),
        decreases v.len() - i,
    {
        let c = owned(v[i].as_str());
        assert(names_view(v@)[i as int] == c@);
        proof { lemma_names_push(out@, c); }
        out.push(c);
        i = i + 1;
        assert(names_view(out@) =~= names_view(old(out)@) + names_view(v@).subrange(0, i as int));
    }
    assert(names_view(v@).subrange(0, v.len() as int) =~= names_view(v@));
}

/// The four-layer context window.
#[derive(Debug)]
pub struct ContextWindow {
    system: ContextLayer,
    compressed: ContextLayer,
    structured: ContextLayer,
    linear: ContextLayer,
    max_tokens: u32,
}

impl ContextWindow {
    /// The messages of `layer`.
    pub closed spec fn layer(&self, layer: Layer) -> Seq<Seq<char>> {
        match layer {
            Layer::System => self.system.msgs(),
            Layer::Compressed => self.compressed.msgs(),
            Layer::Structured => self.structured.msgs(),
            Layer::Linear => self.linear.msgs(),
        }
    }

    /// The token limit.
    pub closed spec fn max(&self) -> u32 {
        self.max_tokens
    }

    /// All messages, System, Compressed, Structured then Linear.
    pub open spec fn all(&self) -> Seq<Seq<char>> {
        self.layer(Layer::System) + self.layer(Layer::Compressed) + self.layer(Layer::Structured) + self.layer(Layer::Linear)
    }

    /// Sum of the token estimates of the four layers.
    pub open spec fn tokens(&self) -> int {
        tokens_of(self.layer(Layer::System)) + tokens_of(self.layer(Layer::Compressed)) + tokens_of(self.layer(Layer::Structured))
            + tokens_of(self.layer(Layer::Linear))
    }

    /// An empty window with the given token limit.
    pub fn new(max_tokens: u32) -> (w: ContextWindow)
        ensures
            w.max() == max_tokens,
            w.layer(Layer::System) == Seq::<Seq<char>>::empty(),
            w.layer(Layer::Compressed) == Seq::<Seq<char>>::empty(),
            w.layer(Layer::Structured) == Seq::<Seq<char>>::empty(),
            w.layer(Layer::Linear) == Seq::<Seq<char>>::empty(),
    {
        let w = ContextWindow {
            system: ContextLayer { name: owned("System"), messages: Vec::new(), compressible: false },
            compressed: ContextLayer { name: owned("Compressed"), messages: Vec::new(), compressible: false },
            structured: ContextLayer { name: owned("Structured"), messages: Vec::new(), compressible: true },
            linear: ContextLayer { name: owned("Linear"), messages: Vec::new(), compressible: true },
            max_tokens,
        };
        assert(w.layer(Layer::System) =~= Seq::<Seq<char>>::empty());
        assert(w.layer(Layer::Compressed) =~= Seq::<Seq<char>>::empty());
        assert(w.layer(Layer::Structured) =~= Seq::<Seq<char>>::empty());
        assert(w.layer(Layer::Linear) =~= Seq::<Seq<char>>::empty());
        w
    }

    /// Appends `message` to `layer`; the other layers are unchanged.
    pub fn add_to_layer(&mut self, layer: Layer, message: String)
        ensures
            final(self).max() == old(self).max(),
            forall|l: Layer| #[trigger] final(self).layer(l) == if l == layer {
                old(self).layer(l).push(message@)
            } else {
                old(self).layer(l)
            },
    {
        match layer {
            Layer::System => self.system.messages.push(message),
            Layer::Compressed => self.compressed.messages.push(message),
            Layer::Structured => self.structured.messages.push(message),
            Layer::Linear => self.linear.messages.push(message),
        }
        assert(self.layer(layer) =~= old(self).layer(layer).push(message@));
    }

    /// Estimated tokens of the whole window.
    pub fn total_tokens(&self) -> (n: u32)
        requires
            self.tokens() <= u32::MAX,
        ensures
            n == self.tokens(),
    {
        proof {
            lemma_tokens_prefix(self.system.msgs(), 0);
            lemma_tokens_prefix(self.compressed.msgs(), 0);
            lemma_tokens_prefix(self.structured.msgs(), 0);
            lemma_tokens_prefix(self.linear.msgs(), 0);
        }
        self.system.token_estimate() + self.compressed.token_estimate() + self.structured.token_estimate()
            + self.linear.token_estimate()
    }

    /// The token limit.
    pub fn max_tokens(&self) -> (m: u32)
        ensures
            m == self.max(),
    {
        self.max_tokens
    }

    /// Keeps only the last `keep_last` messages of the Linear layer.
    pub fn compress_linear(&mut self, keep_last: usize)
        ensures
            final(self).max() == old(self).max(),
            final(self).layer(Layer::Linear) == (if old(self).layer(Layer::Linear).len() > keep_last {
                old(self).layer(Layer::Linear).subrange(
                    old(self).layer(Layer::Linear).len() - keep_last,
                    old(self).layer(Layer::Linear).len() as int,
                )
            } else {
                old(self).layer(Layer::Linear)
            }),
            final(self).layer(Layer::System) == old(self).layer(Layer::System),
            final(self).layer(Layer::Compressed) == old(self).layer(Layer::Compressed),
            final(self).layer(Layer::Structured) == old(self).layer(Layer::Structured),
    {
        let n = self.linear.messages.len();
        if n > keep_last {
            let kept = self.linear.messages.split_off(n - keep_last);
            self.linear.messages = kept;
            assert(self.layer(Layer::Linear) =~= old(self).layer(Layer::Linear).subrange(n - keep_last, n as int));
        }
    }

    /// Empties the Structured layer.
    pub fn compress_structured(&mut self)
        ensures
            final(self).max() == old(self).max(),
            final(self).layer(Layer::Structured) == Seq::<Seq<char>>::empty(),
            final(self).layer(Layer::System) == old(self).layer(Layer::System),
            final(self).layer(Layer::Compressed) == old(self).layer(Layer::Compressed),
            final(self).layer(Layer::Linear) == old(self).layer(Layer::Linear),
    {
        self.structured.messages.clear();
        assert(self.layer(Layer::Structured) =~= Seq::<Seq<char>>::empty());
    }

    /// All messages in layer order: System, Compressed, Structured, Linear.
    pub fn build_context(&self) -> (v: Vec<String>)
        ensures
            names_view(v@) == self.all(),
    {
        let mut v = copy_all(&self.system.messages);
        extend_copies(&mut v, &self.compressed.messages);
        extend_copies(&mut v, &self.structured.messages);
        extend_copies(&mut v, &self.linear.messages);
        v
    }
}

} // verus!
