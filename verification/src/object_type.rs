use vstd::prelude::*;
use vstd::slice::slice_index_get;
use vstd::utf8::{encode_utf8, encode_utf8_decode_utf8, is_ascii_chars, is_ascii_chars_encode_utf8};

verus! {

/// The closed set of object-type tags the store recognises.
#[derive(Clone, Copy, Debug, PartialEq, Eq, Structural)]
pub enum ObjectType {
    Blob,
    Tree,
    Commit,
    Tag,
}

impl ObjectType {
    /// The tag text, exactly as it appears on the command line.
    pub open spec fn tag_chars(self) -> Seq<char> {
        match self {
            ObjectType::Blob => seq!['b', 'l', 'o', 'b'],
            ObjectType::Tree => seq!['t', 'r', 'e', 'e'],
            ObjectType::Commit => seq!['c', 'o', 'm', 'm', 'i', 't'],
            ObjectType::Tag => seq!['t', 'a', 'g'],
        }
    }

    /// The tag as ASCII bytes, as it stands at the front of an object header.
    pub open spec fn tag_byte_seq(self) -> Seq<u8> {
        match self {
            ObjectType::Blob => seq![98u8, 108u8, 111u8, 98u8],
            ObjectType::Tree => seq![116u8, 114u8, 101u8, 101u8],
            ObjectType::Commit => seq![99u8, 111u8, 109u8, 109u8, 105u8, 116u8],
            ObjectType::Tag => seq![116u8, 97u8, 103u8],
        }
    }

    /// The UTF-8 encoding of the tag text is exactly its ASCII bytes.
    pub proof fn lemma_tag_encoding(self)
        ensures
            encode_utf8(self.tag_chars()) == self.tag_byte_seq(),
            self.tag_chars().len() == self.tag_byte_seq().len(),
    {
        assert(is_ascii_chars(self.tag_chars()));
        is_ascii_chars_encode_utf8(self.tag_chars());
        assert(encode_utf8(self.tag_chars()) =~= self.tag_byte_seq());
    }

    /// Distinct tags have distinct texts.
    pub proof fn lemma_tags_distinct(t1: ObjectType, t2: ObjectType)
        ensures
            t1.tag_chars() == t2.tag_chars() ==> t1 == t2,
    {
        if t1.tag_chars() == t2.tag_chars() && t1 != t2 {
            assert(t1.tag_chars().len() == t2.tag_chars().len());
            assert(t1.tag_chars()[0] == t2.tag_chars()[0]);
            assert(t1.tag_chars()[1] == t2.tag_chars()[1]);
            assert(false);
        }
    }

    /// The tag bytes, as an owned vector.
    pub fn tag_bytes(self) -> (v: Vec<u8>)
        ensures
            v@ == self.tag_byte_seq(),
    {
        let mut v: Vec<u8> = Vec::new();
        match self {
            ObjectType::Blob => {
                v.push(98);
                v.push(108);
                v.push(111);
                v.push(98);
            },
            ObjectType::Tree => {
                v.push(116);
                v.push(114);
                v.push(101);
                v.push(101);
            },
            ObjectType::Commit => {
                v.push(99);
                v.push(111);
                v.push(109);
                v.push(109);
                v.push(105);
                v.push(116);
            },
            ObjectType::Tag => {
                v.push(116);
                v.push(97);
                v.push(103);
            },
        }
        proof {
            assert(v@ =~= self.tag_byte_seq());
        }
        v
    }

    /// Parse a command-line tag; `None` exactly when the text is none of the
    /// four recognised tags.
    pub fn parse(s: &str) -> (r: Option<ObjectType>)
        ensures
            match r {
                Some(t) => s@ == t.tag_chars(),
                None => forall|t: ObjectType| s@ != t.tag_chars(),
            },
    {
        let b = s.as_bytes();
        let r = if tag_matches(b, ObjectType::Blob) {
            Some(ObjectType::Blob)
        } else if tag_matches(b, ObjectType::Tree) {
            Some(ObjectType::Tree)
        } else if tag_matches(b, ObjectType::Commit) {
            Some(ObjectType::Commit)
        } else if tag_matches(b, ObjectType::Tag) {
            Some(ObjectType::Tag)
        } else {
            None
        };
        proof {
            match r {
                Some(t) => {
                    t.lemma_tag_encoding();
                    encode_utf8_decode_utf8(s@);
                    encode_utf8_decode_utf8(t.tag_chars());
                },
                None => {
                    assert forall|t: ObjectType| s@ != t.tag_chars() by {
                        t.lemma_tag_encoding();
                    }
                },
            }
        }
        r
    }

    /// Resolve an optional command-line tag: an absent tag means `Blob`,
    /// a present one is parsed.
    pub fn parse_or_default(arg: Option<&str>) -> (r: Option<ObjectType>)
        ensures
            match arg {
                None => r == Some(ObjectType::Blob),
                Some(s) => match r {
                    Some(t) => s@ == t.tag_chars(),
                    None => forall|t: ObjectType| s@ != t.tag_chars(),
                },
            },
    {
        match arg {
            None => Some(ObjectType::Blob),
            Some(s) => ObjectType::parse(s),
        }
    }
}

/// The default tag: any parse result that meets the parsing contract on the
/// text `"blob"` is `Some(Blob)` — exactly what an absent tag resolves to —
/// so omitting the tag and passing `"blob"` behave identically.
pub proof fn lemma_default_type(r: Option<ObjectType>)
    requires
        match r {
            Some(t) => "blob"@ == t.tag_chars(),
            None => forall|t: ObjectType| "blob"@ != t.tag_chars(),
        },
    ensures
        r == Some(ObjectType::Blob),
{
    reveal_strlit("blob");
    assert("blob"@ =~= ObjectType::Blob.tag_chars());
    match r {
        Some(t) => {
            ObjectType::lemma_tags_distinct(t, ObjectType::Blob);
        },
        None => {
            assert("blob"@ == ObjectType::Blob.tag_chars());
        },
    }
}

/// Whether the slice holds exactly the tag bytes of `t`.
fn tag_matches(b: &[u8], t: ObjectType) -> (r: bool)
    ensures
        r == (b@ == t.tag_byte_seq()),
{
    let tag = t.tag_bytes();
    bytes_eq(b, tag.as_slice())
}

/// Whether two byte slices hold the same bytes.
fn bytes_eq(a: &[u8], b: &[u8]) -> (r: bool)
    ensures
        r == (a@ == b@),
{
    if a.len() != b.len() {
        return false;
    }
    let mut i: usize = 0;
    while i < a.len()
        invariant
            a@.len() == b@.len(),
            i <= a@.len(),
            forall|j: int| 0 <= j < i ==> a@[j] == b@[j],
        decreases a@.len() - i,
    {
        if *slice_index_get(a, i) != *slice_index_get(b, i) {
            return false;
        }
        i += 1;
    }
    proof {
        assert(a@ =~= b@);
    }
    true
}

} // verus!
