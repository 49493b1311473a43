use vstd::prelude::*;
use vstd::string::*;

verus! {

/// Largest number of bytes (and, addresses being ASCII, characters) in an address.
pub const MAX_ADDRESS_LEN: usize = 1023;

/// A character that may stand in an address segment: `[A-Za-z0-9_~-]`.
pub open spec fn is_segment_char(c: char) -> bool {
    ('a' <= c && c <= 'z') || ('A' <= c && c <= 'Z') || ('0' <= c && c <= '9') || c == '_'
        || c == '~' || c == '-'
}

/// A non-empty run of segment characters.
pub open spec fn is_valid_segment(s: Seq<char>) -> bool {
    s.len() > 0 && forall|i: int| 0 <= i < s.len() ==> is_segment_char(#[trigger] s[i])
}

/// The textual form of an address: non-empty segments joined by `.`, at most
/// `MAX_ADDRESS_LEN` characters. Every dot stands between two segment characters.
pub open spec fn is_valid_address(s: Seq<char>) -> bool {
    &&& 0 < s.len() <= MAX_ADDRESS_LEN
    &&& s[0] != '.'
    &&& forall|i: int|
        0 <= i < s.len() ==> is_segment_char(#[trigger] s[i]) || (s[i] == '.' && i + 1 < s.len()
            && s[i + 1] != '.')
}

/// The text of `base` with `segment` appended as a final segment.
pub open spec fn suffixed(base: Seq<char>, segment: Seq<char>) -> Seq<char> {
    base + seq!['.'] + segment
}

/// The character test of `is_segment_char`.
pub fn segment_char(c: char) -> (r: bool)
    ensures
        r == is_segment_char(c),
{
    ('a' <= c && c <= 'z') || ('A' <= c && c <= 'Z') || ('0' <= c && c <= '9') || c == '_'
        || c == '~' || c == '-'
}

/// Tells whether `s` is the textual form of an address.
pub fn check_address(s: &str) -> (r: bool)
    ensures
        r == is_valid_address(s@),
{
    let len = s.unicode_len();
    if len == 0 || len > MAX_ADDRESS_LEN {
        return false;
    }
    if s.get_char(0) == '.' {
        return false;
    }
    let mut i: usize = 0;
    while i < len
        invariant
            len == s@.len(),
            0 < len <= MAX_ADDRESS_LEN,
            s@[0] != '.',
            i <= len,
            forall|j: int|
                0 <= j < i ==> is_segment_char(#[trigger] s@[j]) || (s@[j] == '.' && j + 1
                    < s@.len() && s@[j + 1] != '.'),
        decreases len - i,
    {
        let c = s.get_char(i);
        if !segment_char(c) {
            if c != '.' || i + 1 == len {
                return false;
            }
            if s.get_char(i + 1) == '.' {
                return false;
            }
        }
        i = i + 1;
    }
    true
}

/// Tells whether `s` is one address segment.
pub fn check_segment(s: &str) -> (r: bool)
    ensures
        r == is_valid_segment(s@),
{
    let len = s.unicode_len();
    if len == 0 {
        return false;
    }
    let mut i: usize = 0;
    while i < len
        invariant
            len == s@.len(),
            i <= len,
            forall|j: int| 0 <= j < i ==> is_segment_char(#[trigger] s@[j]),
        decreases len - i,
    {
        if !segment_char(s.get_char(i)) {
            return false;
        }
        i = i + 1;
    }
    true
}

/// Why an address could not be made.
#[derive(Debug, Clone, Copy, PartialEq, Eq, Structural)]
pub enum AddressError {
    /// The text breaks the segment, charset or length rule.
    InvalidAddress,
}

/// A validated, hierarchical, dot-segmented address such as `example.connector`.
#[derive(Debug)]
pub struct Address {
    text: String,
}

impl View for Address {
    type V = Seq<char>;

    closed spec fn view(&self) -> Seq<char> {
        self.text@
    }
}

impl Address {
    #[verifier::type_invariant]
    closed spec fn inv(&self) -> bool {
        is_valid_address(self.text@)
    }

    /// Parses the textual form of an address.
    pub fn parse(text: &str) -> (r: Result<Address, AddressError>)
        ensures
            r is Ok <==> is_valid_address(text@),
            r matches Ok(a) ==> a@ == text@,
            r matches Err(e) ==> e == AddressError::InvalidAddress,
    {
        if check_address(text) {
            Ok(Address { text: String::from_str(text) })
        } else {
            Err(AddressError::InvalidAddress)
        }
    }

    /// The address whose textual form is `text`, known to be valid.
    pub fn from_valid_text(text: &str) -> (r: Address)
        requires
            is_valid_address(text@),
        ensures
            r@ == text@,
    {
        Address { text: String::from_str(text) }
    }

    /// The address with `segment` appended as its final segment; fails where
    /// the result would break the address rules.
    pub fn with_suffix(&self, segment: &str) -> (r: Result<Address, AddressError>)
        ensures
            r is Ok <==> is_valid_address(suffixed(self@, segment@)),
            r matches Ok(a) ==> a@ == suffixed(self@, segment@),
            r matches Err(e) ==> e == AddressError::InvalidAddress,
    {
        proof {
            reveal_strlit(".");
        }
        let joined = self.text.clone().concat(".").concat(segment);
        assert(joined@ =~= suffixed(self@, segment@));
        if check_address(joined.as_str()) {
            Ok(Address { text: joined })
        } else {
            Err(AddressError::InvalidAddress)
        }
    }

    /// The textual form.
    pub fn as_str(&self) -> (r: &str)
        ensures
            r@ == self@,
            is_valid_address(r@),
    {
        proof {
            use_type_invariant(self);
        }
        self.text.as_str()
    }

    /// The address without its final segment; `None` for a single segment.
    pub fn parent(&self) -> (r: Option<Address>)
        ensures
            r is None <==> forall|i: int| 0 <= i < self@.len() ==> self@[i] != '.',
            r matches Some(p) ==> exists|segment: Seq<char>|
                is_valid_segment(segment) && self@ == suffixed(p@, segment),
    {
        proof {
            use_type_invariant(self);
        }
        let s = self.text.as_str();
        let len = s.unicode_len();
        let mut i: usize = len;
        while i > 0
            invariant
                len == self@.len(),
                s@ == self@,
                is_valid_address(self@),
                i <= len,
                forall|j: int| i <= j < len ==> self@[j] != '.',
            decreases i,
        {
            if s.get_char(i - 1) == '.' {
                let prefix = s.substring_char(0, i - 1);
                let ghost segment = self@.subrange(i as int, len as int);
                proof {
                    assert(self@ =~= suffixed(prefix@, segment));
                    assert(is_valid_address(prefix@)) by {
                        assert forall|j: int| 0 <= j < prefix@.len() implies is_segment_char(
                            #[trigger] prefix@[j],
                        ) || (prefix@[j] == '.' && j + 1 < prefix@.len() && prefix@[j + 1]
                            != '.') by {
                            assert(prefix@[j] == self@[j]);
                            if !is_segment_char(self@[j]) {
                                assert(self@[j + 1] != '.');
                                assert(prefix@[j + 1] == self@[j + 1]);
                            }
                        }
                    }
                    assert(is_valid_segment(segment)) by {
                        assert forall|j: int| 0 <= j < segment.len() implies is_segment_char(
                            #[trigger] segment[j],
                        ) by {
                            assert(segment[j] == self@[i + j]);
                        }
                    }
                }
                return Some(Address { text: String::from_str(prefix) });
            }
            i = i - 1;
        }
        None
    }

    /// Whether the textual form is `text`.
    pub fn has_text(&self, text: &str) -> (r: bool)
        ensures
            r == (self@ == text@),
    {
        self.text == String::from_str(text)
    }

    /// Number of characters (equally, of bytes) in the textual form.
    pub fn len(&self) -> (r: usize)
        ensures
            r == self@.len(),
    {
        self.text.as_str().unicode_len()
    }
}

impl Clone for Address {
    fn clone(&self) -> (r: Self)
        ensures
            r@ == self@,
            is_valid_address(r@),
    {
        proof {
            use_type_invariant(self);
        }
        Address { text: self.text.clone() }
    }
}

impl PartialEq for Address {
    fn eq(&self, other: &Address) -> (r: bool) {
        self.text == other.text
    }
}

impl vstd::std_specs::cmp::PartialEqSpecImpl for Address {
    open spec fn obeys_eq_spec() -> bool {
        true
    }

    open spec fn eq_spec(&self, other: &Address) -> bool {
        self@ == other@
    }
}

impl Eq for Address {
}

} // verus!

verus! {

/// Why a username could not be made.
#[derive(Debug, Clone, Copy, PartialEq, Eq, Structural)]
pub enum UsernameError {
    /// The text is empty or holds a character outside `[A-Za-z0-9_~-]`.
    InvalidUsername,
}

/// An account's username: one non-empty run of address-segment characters.
#[derive(Debug)]
pub struct Username {
    text: String,
}

impl View for Username {
    type V = Seq<char>;

    closed spec fn view(&self) -> Seq<char> {
        self.text@
    }
}

impl Username {
    #[verifier::type_invariant]
    closed spec fn inv(&self) -> bool {
        is_valid_segment(self.text@)
    }

    /// Parses a username.
    pub fn parse(text: &str) -> (r: Result<Username, UsernameError>)
        ensures
            r is Ok <==> is_valid_segment(text@),
            r matches Ok(u) ==> u@ == text@,
            r matches Err(e) ==> e == UsernameError::InvalidUsername,
    {
        if check_segment(text) {
            Ok(Username { text: String::from_str(text) })
        } else {
            Err(UsernameError::InvalidUsername)
        }
    }

    /// The username `text`, known to be valid.
    pub fn from_valid_text(text: &str) -> (r: Username)
        requires
            is_valid_segment(text@),
        ensures
            r@ == text@,
    {
        Username { text: String::from_str(text) }
    }

    /// The text of the username.
    pub fn as_str(&self) -> (r: &str)
        ensures
            r@ == self@,
            is_valid_segment(r@),
    {
        proof {
            use_type_invariant(self);
        }
        self.text.as_str()
    }
}

impl Clone for Username {
    fn clone(&self) -> (r: Self)
        ensures
            r@ == self@,
    {
        proof {
            use_type_invariant(self);
        }
        Username { text: self.text.clone() }
    }
}

impl PartialEq for Username {
    fn eq(&self, other: &Username) -> (r: bool) {
        self.text == other.text
    }
}

impl vstd::std_specs::cmp::PartialEqSpecImpl for Username {
    open spec fn obeys_eq_spec() -> bool {
        true
    }

    open spec fn eq_spec(&self, other: &Username) -> bool {
        self@ == other@
    }
}

impl Eq for Username {
}

} // verus!
