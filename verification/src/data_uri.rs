//! Inline `data:` URIs, as used by text-format assets that embed their
//! binary buffers: `data:<mime>[;base64],<payload>`. Parsing is exact over
//! the URI text; the base64 alphabet itself is decoded by an outside
//! crate behind one trusted call.

use vstd::prelude::*;
use vstd::string::{StringSliceAdditionalSpecFns, StrSliceExecFns};
use crate::address::find_from;

verus! {

/// A `data:` URI split into its parts: the mime type, whether the payload
/// is base64 text, and the raw payload text.
pub struct DataUri<'a> {
    pub mime_type: &'a str,
    pub base64: bool,
    pub data: &'a str,
}

/// `s` ends with the `";base64"` marker.
pub open spec fn ends_with_base64_marker(s: Seq<char>) -> bool {
    s.len() >= 7 && s.subrange(s.len() - 7, s.len() as int) == ";base64"@
}

/// What decoding base64 text in the standard alphabet without padding
/// returns: a pure function of the text, or nothing when the text is not
/// valid base64.
pub uninterp spec fn base64_standard_no_pad(s: Seq<char>) -> Option<Seq<u8>>;

/// Relies on `base64::engine::general_purpose::STANDARD_NO_PAD` and
/// `base64::Engine::decode`: the decoded bytes are a pure function of the
/// input text, with no hidden state, failing exactly on text outside the
/// padding-free standard alphabet.
#[verifier::external_body]
fn base64_decode(data: &str) -> (r: Option<Vec<u8>>)
    ensures
        match r {
            Some(v) => base64_standard_no_pad(data@) == Some(v@),
            None => base64_standard_no_pad(data@) is None,
        },
{
    match base64::Engine::decode(&base64::engine::general_purpose::STANDARD_NO_PAD, data) {
        Ok(v) => Some(v),
        Err(_) => None,
    }
}

impl<'a> DataUri<'a> {
    /// Splits a `data:` URI at its first comma: the mime type (with the
    /// optional `";base64"` marker stripped), then the payload text.
    /// Fails exactly when the `"data:"` scheme or the comma is missing.
    pub fn parse(uri: &'a str) -> (r: Result<DataUri<'a>, ()>)
        ensures
            match r {
                Ok(d) => {
                    &&& uri@ == "data:"@ + d.mime_type@ + (if d.base64 {
                        ";base64"@
                    } else {
                        Seq::<char>::empty()
                    }) + seq![','] + d.data@
                    &&& find_from(uri@, ',', 5) == 5 + d.mime_type@.len() + (if d.base64 {
                        7int
                    } else {
                        0int
                    })
                    &&& !d.base64 ==> !ends_with_base64_marker(d.mime_type@)
                },
                Err(()) => uri@.len() < 5 || uri@.subrange(0, 5) != "data:"@ || find_from(
                    uri@,
                    ',',
                    5,
                ) == uri@.len(),
            },
    {
        let n = uri.unicode_len();
        proof {
            reveal_strlit("data:");
        }
        if n < 5 {
            return Err(());
        }
        let has_scheme = uri.get_char(0) == 'd' && uri.get_char(1) == 'a' && uri.get_char(2)
            == 't' && uri.get_char(3) == 'a' && uri.get_char(4) == ':';
        if !has_scheme {
            proof {
                assert(uri@.subrange(0, 5) != "data:"@) by {
                    if uri@.subrange(0, 5) == "data:"@ {
                        assert(uri@.subrange(0, 5)[0] == 'd' && uri@.subrange(0, 5)[1] == 'a'
                            && uri@.subrange(0, 5)[2] == 't' && uri@.subrange(0, 5)[3] == 'a'
                            && uri@.subrange(0, 5)[4] == ':');
                    }
                }
            }
            return Err(());
        }
        proof {
            assert(uri@.subrange(0, 5) =~= "data:"@);
        }
        let mut comma: usize = 5;
        while comma < n
            invariant
                5 <= comma <= n,
                n == uri@.len(),
                forall|j: int| 5 <= j < comma ==> uri@[j] != ',',
            ensures
                5 <= comma <= n,
                forall|j: int| 5 <= j < comma ==> uri@[j] != ',',
                comma < n ==> uri@[comma as int] == ',',
            decreases n - comma,
        {
            if uri.get_char(comma) == ',' {
                break;
            }
            comma = comma + 1;
        }
        proof {
            crate::address::lemma_find_first(uri@, ',', 5, comma as int);
        }
        if comma >= n {
            return Err(());
        }
        let head = uri.substring_char(5, comma);
        let data = uri.substring_char(comma + 1, n);
        let head_len = comma - 5;
        proof {
            reveal_strlit(";base64");
        }
        let marked = head_len >= 7 && head.get_char(head_len - 7) == ';' && head.get_char(
            head_len - 6,
        ) == 'b' && head.get_char(head_len - 5) == 'a' && head.get_char(head_len - 4) == 's'
            && head.get_char(head_len - 3) == 'e' && head.get_char(head_len - 2) == '6'
            && head.get_char(head_len - 1) == '4';
        if marked {
            let mime_type = head.substring_char(0, head_len - 7);
            let d = DataUri { mime_type, base64: true, data };
            proof {
                assert(head@.subrange(head@.len() - 7, head@.len() as int) =~= ";base64"@);
                assert(uri@ =~= "data:"@ + d.mime_type@ + ";base64"@ + seq![','] + d.data@);
            }
            Ok(d)
        } else {
            let d = DataUri { mime_type: head, base64: false, data };
            proof {
                assert(uri@ =~= "data:"@ + d.mime_type@ + seq![','] + d.data@);
                assert(!ends_with_base64_marker(d.mime_type@)) by {
                    if ends_with_base64_marker(head@) {
                        let m = head@.len() as int;
                        assert(head@.subrange(m - 7, m)[0] == ';' && head@.subrange(m - 7, m)[1]
                            == 'b' && head@.subrange(m - 7, m)[2] == 'a' && head@.subrange(
                            m - 7,
                            m,
                        )[3] == 's' && head@.subrange(m - 7, m)[4] == 'e' && head@.subrange(
                            m - 7,
                            m,
                        )[5] == '6' && head@.subrange(m - 7, m)[6] == '4');
                    }
                }
            }
            Ok(d)
        }
    }

    /// The payload bytes: the base64 decoding of the payload text when the
    /// URI carries the marker, else the payload text's own bytes. Fails
    /// exactly when marked base64 text does not decode.
    pub fn decode(&self) -> (r: Result<Vec<u8>, String>)
        ensures
            match r {
                Ok(v) => if self.base64 {
                    base64_standard_no_pad(self.data@) == Some(v@)
                } else {
                    v@ == self.data.spec_bytes()
                },
                Err(msg) => self.base64 && base64_standard_no_pad(self.data@) is None && msg@
                    == "Failed to decode base64"@,
            },
    {
        if self.base64 {
            match base64_decode(self.data) {
                Some(v) => Ok(v),
                None => Err("Failed to decode base64".to_owned()),
            }
        } else {
            Ok(vstd::slice::slice_to_vec(self.data.as_bytes()))
        }
    }
}

} // verus!
