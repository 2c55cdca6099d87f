//! Firmware and bootloader version strings.
use vstd::prelude::*;
use vstd::string::StringSliceAdditionalSpecFns;

use crate::text::{is_valid_up_to, str_from_utf8, utf8_valid_up_to, Utf8Error};

verus! {

/// Max size of version string, including terminating `NUL`.
pub const VERSION_LEN: usize = 16;

/// A version string, NUL-padded to [VERSION_LEN] bytes.
#[derive(Clone, Copy, Debug, Eq, Hash, Ord, PartialEq, PartialOrd, Default)]
pub struct Version([u8; VERSION_LEN]);

/// Why a version could not be built.
#[derive(Clone, Copy, Debug, Eq, Hash, Ord, PartialEq, PartialOrd)]
pub enum VersionError {
    /// More than [VERSION_LEN] bytes were given.
    TooLong,
}

impl View for Version {
    type V = Seq<u8>;

    closed spec fn view(&self) -> Seq<u8> {
        self.0@
    }
}

/// The index of the first NUL in `s`, or its length if there is none.
pub open spec fn nul_index(s: Seq<u8>) -> int
    decreases s.len(),
{
    if s.len() == 0 {
        0
    } else if s[0] == 0 {
        0
    } else {
        1 + nul_index(s.drop_first())
    }
}

/// The index of the first NUL lies within the sequence, and no byte before it is NUL.
pub proof fn lemma_nul_index(s: Seq<u8>)
    ensures
        0 <= nul_index(s) <= s.len(),
        nul_index(s) < s.len() ==> s[nul_index(s)] == 0,
        forall|j: int| 0 <= j < nul_index(s) ==> s[j] != 0,
    decreases s.len(),
{
    if s.len() > 0 && s[0] != 0 {
        lemma_nul_index(s.drop_first());
        assert forall|j: int| 0 <= j < nul_index(s) implies s[j] != 0 by {
            if j > 0 {
                assert(s[j] == s.drop_first()[j - 1]);
            }
        }
    }
}

/// The NUL-padded bytes of a version made from `name`.
pub open spec fn padded_name(name: Seq<u8>) -> Seq<u8> {
    name + Seq::new((VERSION_LEN - name.len()) as nat, |i: int| 0u8)
}

proof fn lemma_nul_index_at(s: Seq<u8>, k: int)
    requires
        0 <= k <= s.len(),
        forall|j: int| 0 <= j < k ==> s[j] != 0,
        k < s.len() ==> s[k] == 0,
    ensures
        nul_index(s) == k,
    decreases k,
{
    if k > 0 {
        assert forall|j: int| 0 <= j < k - 1 implies s.drop_first()[j] != 0 by {
            assert(s.drop_first()[j] == s[j + 1]);
        }
        lemma_nul_index_at(s.drop_first(), k - 1);
    }
}

/// A version made from a name reads back as that name: the text of a
/// version is its bytes up to the first NUL, and the name, which holds no
/// NUL and fits, is followed by NUL padding.
pub proof fn law_version_name_roundtrip(name: Seq<u8>)
    requires
        name.len() <= VERSION_LEN,
        forall|i: int| 0 <= i < name.len() ==> #[trigger] name[i] != 0,
    ensures
        padded_name(name).len() == VERSION_LEN,
        nul_index(padded_name(name)) == name.len(),
        padded_name(name).take(nul_index(padded_name(name))) == name,
{
    let p = padded_name(name);
    assert forall|j: int| 0 <= j < name.len() implies p[j] != 0 by {
        assert(p[j] == name[j]);
    }
    lemma_nul_index_at(p, name.len() as int);
    assert(p.take(name.len() as int) =~= name);
}

/// A version made from a text name that holds no NUL and fits reads back
/// as that text: [Version::as_str] of it succeeds (its bytes up to the
/// first NUL are the name, which is UTF-8) with the name's bytes.
pub proof fn law_version_str_roundtrip(name: &str)
    requires
        name.spec_bytes().len() <= VERSION_LEN,
        forall|i: int| 0 <= i < name.spec_bytes().len() ==> #[trigger] name.spec_bytes()[i] != 0,
    ensures
        ({
            let v = padded_name(name.spec_bytes());
            &&& vstd::utf8::valid_utf8(v.take(nul_index(v)))
            &&& v.take(nul_index(v)) == name.spec_bytes()
        }),
{
    law_version_name_roundtrip(name.spec_bytes());
    vstd::utf8::encode_utf8_valid_utf8(name@);
}

impl Version {
    /// The version whose 16 bytes are `s`.
    pub closed spec fn from_seq(s: Seq<u8>) -> Version {
        Version(
            [
                s[0],
                s[1],
                s[2],
                s[3],
                s[4],
                s[5],
                s[6],
                s[7],
                s[8],
                s[9],
                s[10],
                s[11],
                s[12],
                s[13],
                s[14],
                s[15],
            ],
        )
    }

    /// A version is determined by its bytes.
    pub proof fn lemma_view(v: Version)
        ensures
            v@.len() == VERSION_LEN,
            Version::from_seq(v@) == v,
    {
        assert(Version::from_seq(v@).0 =~= v.0);
    }

    /// A version built from 16 bytes holds them.
    pub proof fn lemma_from_seq(s: Seq<u8>)
        requires
            s.len() == VERSION_LEN,
        ensures
            Version::from_seq(s)@ == s,
    {
        assert(Version::from_seq(s)@ =~= s);
    }

    /// An all-NUL version.
    pub fn new_empty() -> (v: Self)
        ensures
            v@ == Seq::new(VERSION_LEN as nat, |i: int| 0u8),
    {
        let v = Self([0; VERSION_LEN]);
        assert(v@ =~= Seq::new(VERSION_LEN as nat, |i: int| 0u8));
        v
    }

    /// A version holding exactly these bytes.
    pub fn new(data: [u8; VERSION_LEN]) -> (v: Self)
        ensures
            v@ == data@,
    {
        Self(data)
    }

    /// A version holding the bytes of `name`, NUL-padded.
    pub fn new_from_str(name: &str) -> (r: Result<Self, VersionError>)
        ensures
            name.spec_bytes().len() > VERSION_LEN ==> r == Err::<Self, VersionError>(
                VersionError::TooLong,
            ),
            name.spec_bytes().len() <= VERSION_LEN ==> (r matches Ok(v) && v@ == padded_name(
                name.spec_bytes(),
            )),
    {
        Self::new_from_bytes(name.as_bytes())
    }

    /// A version holding `bytes`, NUL-padded.
    pub fn new_from_bytes(bytes: &[u8]) -> (r: Result<Self, VersionError>)
        ensures
            bytes@.len() > VERSION_LEN ==> r == Err::<Self, VersionError>(VersionError::TooLong),
            bytes@.len() <= VERSION_LEN ==> (r matches Ok(v) && v@ == padded_name(bytes@)),
    {
        if bytes.len() > VERSION_LEN {
            return Err(VersionError::TooLong);
        }
        let mut data = [0u8; VERSION_LEN];
        let mut i: usize = 0;
        while i < bytes.len()
            invariant
                i <= bytes@.len() <= VERSION_LEN,
                data@.len() == VERSION_LEN,
                forall|j: int| 0 <= j < i ==> data@[j] == bytes@[j],
                forall|j: int| i <= j < VERSION_LEN ==> data@[j] == 0,
            decreases bytes@.len() - i,
        {
            data[i] = bytes[i];
            i += 1;
        }
        let v = Self(data);
        assert(v@ =~= bytes@ + Seq::new((VERSION_LEN - bytes@.len()) as nat, |i: int| 0u8));
        Ok(v)
    }

    /// The version up to its first NUL, as text, if it is UTF-8.
    pub fn as_str(&self) -> (r: Result<&str, Utf8Error>)
        ensures
            r is Ok <==> vstd::utf8::valid_utf8(self@.take(nul_index(self@))),
            r matches Ok(s) ==> s.spec_bytes() == self@.take(nul_index(self@)),
            r matches Err(e) ==> is_valid_up_to(
                self@.take(nul_index(self@)),
                utf8_valid_up_to(e) as int,
            ),
    {
        let bytes = self.0.as_slice();
        let mut end: usize = 0;
        while end < bytes.len() && bytes[end] != 0
            invariant
                bytes@ == self@,
                end <= bytes@.len(),
                forall|j: int| 0 <= j < end ==> bytes@[j] != 0,
            decreases bytes@.len() - end,
        {
            end += 1;
        }
        proof {
            lemma_nul_index(self@);
            if nul_index(self@) < end {
                assert(self@[nul_index(self@)] != 0);
            }
            if end < nul_index(self@) {
                assert(bytes@[end as int] != 0);
            }
        }
        str_from_utf8(vstd::slice::slice_subrange(bytes, 0, end))
    }

    /// The raw bytes of the version.
    pub fn as_bytes(&self) -> (r: &[u8])
        ensures
            r@ == self@,
    {
        self.0.as_slice()
    }
}

impl core::ops::Deref for Version {
    type Target = [u8];

    /// The raw bytes of the version.
    fn deref(&self) -> (r: &[u8])
        ensures
            r@ == self@,
    {
        self.as_bytes()
    }
}

} // verus!
