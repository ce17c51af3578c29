//! What of a web response tells valid padding from invalid.

use vstd::prelude::*;
use vstd::string::*;

verus! {

/// The parts of a web response that calibration looks at. Body and length
/// are held only where the body is to be considered.
#[derive(Clone, Debug)]
pub struct CalibrationResponse {
    status: u16,
    location: Option<Vec<u8>>,
    content: Option<String>,
    content_length: Option<u64>,
}

/// A response as a value.
pub struct CalibrationResponseView {
    pub status: u16,
    pub location: Option<Seq<u8>>,
    pub content: Option<Seq<char>>,
    pub content_length: Option<u64>,
}

impl View for CalibrationResponse {
    type V = CalibrationResponseView;

    closed spec fn view(&self) -> CalibrationResponseView {
        CalibrationResponseView {
            status: self.status,
            location: match self.location {
                Some(bytes) => Some(bytes@),
                None => None,
            },
            content: match self.content {
                Some(text) => Some(text@),
                None => None,
            },
            content_length: self.content_length,
        }
    }
}

/// What is read off a response: body and length only where `consider_body`
/// holds.
pub open spec fn response_of(
    status: u16,
    location: Option<Seq<u8>>,
    content: Seq<char>,
    content_length: Option<u64>,
    consider_body: bool,
) -> CalibrationResponseView {
    CalibrationResponseView {
        status,
        location,
        content: if consider_body {
            Some(content)
        } else {
            None
        },
        content_length: if consider_body {
            content_length
        } else {
            None
        },
    }
}

fn same_bytes(left: &Vec<u8>, right: &Vec<u8>) -> (same: bool)
    ensures
        same == (left@ == right@),
{
    if left.len() != right.len() {
        return false;
    }
    let len = left.len();
    let mut i: usize = 0;
    while i < len
        invariant
            len == left@.len(),
            len == right@.len(),
            i <= len,
            forall|j: int| 0 <= j < i ==> left@[j] == right@[j],
        decreases len - i,
    {
        if left[i] != right[i] {
            return false;
        }
        i += 1;
    }
    assert(left@ =~= right@);
    true
}

fn copy_bytes(bytes: &Vec<u8>) -> (copy: Vec<u8>)
    ensures
        copy@ == bytes@,
{
    let mut copy: Vec<u8> = Vec::new();
    copy.extend_from_slice(bytes.as_slice());
    assert(copy@ =~= bytes@);
    copy
}

impl CalibrationResponse {
    /// The relevant parts of a response with the given status, `Location`
    /// header, body and length. Body and length are dropped unless
    /// `consider_body` holds.
    pub fn from_response(
        status: u16,
        location: Option<Vec<u8>>,
        content: String,
        content_length: Option<u64>,
        consider_body: bool,
    ) -> (response: CalibrationResponse)
        ensures
            response@ == response_of(
                status,
                match location {
                    Some(bytes) => Some(bytes@),
                    None => None,
                },
                content@,
                content_length,
                consider_body,
            ),
    {
        CalibrationResponse {
            status,
            location,
            content: if consider_body {
                Some(content)
            } else {
                None
            },
            content_length: if consider_body {
                content_length
            } else {
                None
            },
        }
    }

    /// A response of exactly these parts, as they were remembered.
    pub fn from_parts(
        status: u16,
        location: Option<Vec<u8>>,
        content: Option<String>,
        content_length: Option<u64>,
    ) -> (response: CalibrationResponse)
        ensures
            response@ == (CalibrationResponseView {
                status,
                location: match location {
                    Some(bytes) => Some(bytes@),
                    None => None,
                },
                content: match content {
                    Some(text) => Some(text@),
                    None => None,
                },
                content_length,
            }),
    {
        CalibrationResponse { status, location, content, content_length }
    }

    /// The status code.
    pub fn status(&self) -> (status: u16)
        ensures
            status == self@.status,
    {
        self.status
    }

    /// The bytes of the `Location` header, if the response had one.
    pub fn location(&self) -> (location: &Option<Vec<u8>>)
        ensures
            match *location {
                Some(bytes) => self@.location == Some(bytes@),
                None => self@.location is None,
            },
    {
        &self.location
    }

    /// The body, where it is considered.
    pub fn content(&self) -> (content: &Option<String>)
        ensures
            match *content {
                Some(text) => self@.content == Some(text@),
                None => self@.content is None,
            },
    {
        &self.content
    }

    /// The length of the body, where it is considered and known.
    pub fn content_length(&self) -> (content_length: Option<u64>)
        ensures
            content_length == self@.content_length,
    {
        self.content_length
    }

    /// Whether both responses agree in every part.
    pub fn same_as(&self, other: &CalibrationResponse) -> (same: bool)
        ensures
            same == (self@ == other@),
    {
        if self.status != other.status {
            return false;
        }
        let same_location = match (&self.location, &other.location) {
            (Some(left), Some(right)) => same_bytes(left, right),
            (None, None) => true,
            _ => false,
        };
        if !same_location {
            return false;
        }
        let same_content = match (&self.content, &other.content) {
            (Some(left), Some(right)) => *left == *right,
            (None, None) => true,
            _ => false,
        };
        if !same_content {
            return false;
        }
        match (self.content_length, other.content_length) {
            (Some(left), Some(right)) => left == right,
            (None, None) => true,
            _ => false,
        }
    }

    /// A copy of this response.
    pub fn duplicate(&self) -> (copy: CalibrationResponse)
        ensures
            copy@ == self@,
    {
        CalibrationResponse {
            status: self.status,
            location: match &self.location {
                Some(bytes) => Some(copy_bytes(bytes)),
                None => None,
            },
            content: match &self.content {
                Some(text) => Some(text.clone()),
                None => None,
            },
            content_length: self.content_length,
        }
    }
}

} // verus!
