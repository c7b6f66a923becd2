use crate::error::CvssError;
use vstd::prelude::*;
use vstd::string::StringSliceAdditionalSpecFns;

verus! {

/// Length in bytes of a base vector.
pub const VECTOR_LEN: usize = 44;

/// The letters of a base vector, in their fixed order.
#[derive(Clone, Copy, Debug, PartialEq, Eq, Structural)]
pub struct BaseVector {
    pub av: u8,
    pub ac: u8,
    pub pr: u8,
    pub ui: u8,
    pub s: u8,
    pub c: u8,
    pub i: u8,
    pub a: u8,
}

/// The fixed text of a base vector; `*` marks where a metric letter stands.
pub open spec fn template() -> Seq<u8> {
    seq![
        ('C' as u8), ('V' as u8), ('S' as u8), ('S' as u8), (':' as u8), ('3' as u8), ('.' as u8), ('1' as u8), ('/' as u8), ('A' as u8), ('V' as u8), (':' as u8), ('*' as u8),
        ('/' as u8), ('A' as u8), ('C' as u8), (':' as u8), ('*' as u8), ('/' as u8), ('P' as u8), ('R' as u8), (':' as u8), ('*' as u8), ('/' as u8), ('U' as u8), ('I' as u8), (':' as u8), ('*' as u8),
        ('/' as u8), ('S' as u8), (':' as u8), ('*' as u8), ('/' as u8), ('C' as u8), (':' as u8), ('*' as u8), ('/' as u8), ('I' as u8), (':' as u8), ('*' as u8), ('/' as u8), ('A' as u8), (':' as u8),
        ('*' as u8),
    ]
}

pub open spec fn is_none_low_high(x: u8) -> bool {
    x == ('N' as u8) || x == ('L' as u8) || x == ('H' as u8)
}

/// Whether byte `x` may stand at offset `j` of a base vector.
pub open spec fn allowed_at(j: int, x: u8) -> bool {
    if j == 12 {
        x == ('N' as u8) || x == ('A' as u8) || x == ('L' as u8) || x == ('P' as u8)
    } else if j == 17 {
        x == ('L' as u8) || x == ('H' as u8)
    } else if j == 22 {
        is_none_low_high(x)
    } else if j == 27 {
        x == ('N' as u8) || x == ('R' as u8)
    } else if j == 31 {
        x == ('U' as u8) || x == ('C' as u8)
    } else if j == 35 || j == 39 || j == 43 {
        is_none_low_high(x)
    } else {
        x == template()[j]
    }
}

/// A base vector starts at offset `i` of `b`.
pub open spec fn vector_at(b: Seq<u8>, i: int) -> bool {
    &&& 0 <= i
    &&& i + VECTOR_LEN <= b.len()
    &&& forall|j: int| 0 <= j < VECTOR_LEN ==> #[trigger] allowed_at(j, b[i + j])
}

/// `i` is the first offset at which a base vector starts.
pub open spec fn first_vector_at(b: Seq<u8>, i: int) -> bool {
    vector_at(b, i) && forall|j: int| 0 <= j < i ==> !vector_at(b, j)
}

pub open spec fn has_vector(b: Seq<u8>) -> bool {
    exists|i: int| vector_at(b, i)
}

/// The first offset at which a base vector starts, when there is one.
pub open spec fn first_vector(b: Seq<u8>) -> int {
    choose|i: int| first_vector_at(b, i)
}

/// The letters of the base vector that starts at offset `i`.
pub open spec fn letters_at(b: Seq<u8>, i: int) -> BaseVector {
    BaseVector {
        av: b[i + 12],
        ac: b[i + 17],
        pr: b[i + 22],
        ui: b[i + 27],
        s: b[i + 31],
        c: b[i + 35],
        i: b[i + 39],
        a: b[i + 43],
    }
}

/// A scope field `S:U` or `S:C` starts at offset `i` of `b`.
pub open spec fn scope_at(b: Seq<u8>, i: int) -> bool {
    &&& 0 <= i
    &&& i + 3 <= b.len()
    &&& b[i] == ('S' as u8)
    &&& b[i + 1] == (':' as u8)
    &&& (b[i + 2] == ('U' as u8) || b[i + 2] == ('C' as u8))
}

pub open spec fn first_scope_at(b: Seq<u8>, i: int) -> bool {
    scope_at(b, i) && forall|j: int| 0 <= j < i ==> !scope_at(b, j)
}

pub open spec fn has_scope(b: Seq<u8>) -> bool {
    exists|i: int| scope_at(b, i)
}

/// The scope flag of the first scope field: `true` for `S:C`.
pub open spec fn scope_of(b: Seq<u8>) -> bool {
    b[(choose|i: int| first_scope_at(b, i)) + 2] == ('C' as u8)
}

proof fn lemma_first_vector(b: Seq<u8>, i: int)
    requires
        first_vector_at(b, i),
    ensures
        first_vector(b) == i,
{
    let k = first_vector(b);
    assert(first_vector_at(b, k));
    if k < i {
        assert(!vector_at(b, k));
    } else if i < k {
        assert(!vector_at(b, i));
    }
}

proof fn lemma_first_scope(b: Seq<u8>, i: int)
    requires
        first_scope_at(b, i),
    ensures
        scope_of(b) == (b[i + 2] == ('C' as u8)),
{
    let k = choose|k: int| first_scope_at(b, k);
    assert(first_scope_at(b, k));
    if k < i {
        assert(!scope_at(b, k));
    } else if i < k {
        assert(!scope_at(b, i));
    }
}

fn byte_allowed_at(j: usize, x: u8) -> (r: bool)
    requires
        j < VECTOR_LEN,
    ensures
        r == allowed_at(j as int, x),
{
    let text: [u8; 44] = [
        ('C' as u8), ('V' as u8), ('S' as u8), ('S' as u8), (':' as u8), ('3' as u8), ('.' as u8), ('1' as u8), ('/' as u8), ('A' as u8), ('V' as u8), (':' as u8), ('*' as u8),
        ('/' as u8), ('A' as u8), ('C' as u8), (':' as u8), ('*' as u8), ('/' as u8), ('P' as u8), ('R' as u8), (':' as u8), ('*' as u8), ('/' as u8), ('U' as u8), ('I' as u8), (':' as u8), ('*' as u8),
        ('/' as u8), ('S' as u8), (':' as u8), ('*' as u8), ('/' as u8), ('C' as u8), (':' as u8), ('*' as u8), ('/' as u8), ('I' as u8), (':' as u8), ('*' as u8), ('/' as u8), ('A' as u8), (':' as u8),
        ('*' as u8),
    ];
    assert(text@ =~= template());
    if j == 12 {
        x == ('N' as u8) || x == ('A' as u8) || x == ('L' as u8) || x == ('P' as u8)
    } else if j == 17 {
        x == ('L' as u8) || x == ('H' as u8)
    } else if j == 22 {
        x == ('N' as u8) || x == ('L' as u8) || x == ('H' as u8)
    } else if j == 27 {
        x == ('N' as u8) || x == ('R' as u8)
    } else if j == 31 {
        x == ('U' as u8) || x == ('C' as u8)
    } else if j == 35 || j == 39 || j == 43 {
        x == ('N' as u8) || x == ('L' as u8) || x == ('H' as u8)
    } else {
        x == text[j]
    }
}

fn vector_starts_at(b: &[u8], i: usize) -> (r: bool)
    ensures
        r == vector_at(b@, i as int),
{
    if b.len() < VECTOR_LEN || i > b.len() - VECTOR_LEN {
        return false;
    }
    let mut j: usize = 0;
    while j < VECTOR_LEN
        invariant
            i + VECTOR_LEN <= b.len(),
            j <= VECTOR_LEN,
            forall|k: int| 0 <= k < j ==> #[trigger] allowed_at(k, b@[i + k]),
        decreases VECTOR_LEN - j,
    {
        if !byte_allowed_at(j, b[i + j]) {
            return false;
        }
        j = j + 1;
    }
    true
}

/// Finds the first base vector of the fixed grammar
/// `CVSS:3.1/AV:_/AC:_/PR:_/UI:_/S:_/C:_/I:_/A:_` in the text and returns its
/// letters. The search is not anchored: text before and after the vector is
/// ignored.
pub fn parse_cvss(cvss_vector: &str) -> (r: Result<BaseVector, CvssError>)
    ensures
        r is Ok <==> has_vector(cvss_vector.spec_bytes()),
        r is Ok ==> first_vector_at(cvss_vector.spec_bytes(), first_vector(cvss_vector.spec_bytes())),
        r is Ok ==> r->Ok_0 == letters_at(
            cvss_vector.spec_bytes(),
            first_vector(cvss_vector.spec_bytes()),
        ),
        r is Err ==> r == Err::<BaseVector, CvssError>(CvssError::MalformedVector),
{
    let b = cvss_vector.as_bytes();
    let mut i: usize = 0;
    while i < b.len()
        invariant
            b@ == cvss_vector.spec_bytes(),
            forall|k: int| 0 <= k < i ==> !vector_at(b@, k),
        decreases b.len() - i,
    {
        if vector_starts_at(b, i) {
            proof {
                lemma_first_vector(b@, i as int);
            }
            return Ok(
                BaseVector {
                    av: b[i + 12],
                    ac: b[i + 17],
                    pr: b[i + 22],
                    ui: b[i + 27],
                    s: b[i + 31],
                    c: b[i + 35],
                    i: b[i + 39],
                    a: b[i + 43],
                },
            );
        }
        i = i + 1;
    }
    assert(!has_vector(b@));
    Err(CvssError::MalformedVector)
}

/// Finds the first field `S:U` or `S:C` anywhere in the text and returns
/// whether the scope is changed.
pub fn parse_scope(cvss_vector: &str) -> (r: Result<bool, CvssError>)
    ensures
        r is Ok <==> has_scope(cvss_vector.spec_bytes()),
        r is Ok ==> r->Ok_0 == scope_of(cvss_vector.spec_bytes()),
        r is Err ==> r == Err::<bool, CvssError>(CvssError::MissingScope),
{
    let b = cvss_vector.as_bytes();
    let mut i: usize = 0;
    while i < b.len()
        invariant
            b@ == cvss_vector.spec_bytes(),
            forall|k: int| 0 <= k < i ==> !scope_at(b@, k),
        decreases b.len() - i,
    {
        if b.len() - i >= 3 && b[i] == ('S' as u8) && b[i + 1] == (':' as u8) && (b[i + 2]
            == ('U' as u8) || b[i + 2] == ('C' as u8)) {
            proof {
                lemma_first_scope(b@, i as int);
            }
            return Ok(b[i + 2] == ('C' as u8));
        }
        i = i + 1;
    }
    assert(!has_scope(b@));
    Err(CvssError::MissingScope)
}

} // verus!
