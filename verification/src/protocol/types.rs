//! The values and errors of RESP2.

use vstd::prelude::*;
use vstd::string::StringExecFns;
use crate::protocol::text::concat;
use crate::protocol::text::decimal_text;
use crate::protocol::text::push_i64;
use crate::protocol::text::push_u64;

verus! {

/// A RESP2 value.
#[derive(Debug, PartialEq)]
pub enum RespValue {
    /// `+OK\r\n`
    SimpleString(String),
    /// `-Error message\r\n`
    Error(String),
    /// `:1000\r\n`
    Integer(i64),
    /// `$6\r\nfoobar\r\n`
    BulkString(Vec<u8>),
    /// `$-1\r\n`
    Null,
    /// `*2\r\n$3\r\nfoo\r\n$3\r\nbar\r\n`
    Array(Vec<RespValue>),
}

/// What a `RespValue` stands for.
pub ghost enum Frame {
    SimpleString(Seq<char>),
    Error(Seq<char>),
    Integer(i64),
    BulkString(Seq<u8>),
    Null,
    Array(Seq<Frame>),
}

/// The frames that `values` stand for.
pub open spec fn frames(values: Seq<RespValue>) -> Seq<Frame> {
    values.map_values(|v: RespValue| v@)
}

/// The frame that `v` stands for.
pub open spec fn frame_of(v: RespValue) -> Frame
    decreases v,
{
    match v {
        RespValue::SimpleString(s) => Frame::SimpleString(s@),
        RespValue::Error(s) => Frame::Error(s@),
        RespValue::Integer(i) => Frame::Integer(i),
        RespValue::BulkString(b) => Frame::BulkString(b@),
        RespValue::Null => Frame::Null,
        RespValue::Array(items) => Frame::Array(
            Seq::new(
                items@.len(),
                |i: int|
                    if 0 <= i < items@.len() {
                        frame_of(items@[i])
                    } else {
                        Frame::Null
                    },
            ),
        ),
    }
}

impl View for RespValue {
    type V = Frame;

    open spec fn view(&self) -> Frame {
        frame_of(*self)
    }
}

/// The view of an array is the views of its items.
pub proof fn lemma_array_view(items: Vec<RespValue>)
    ensures
        RespValue::Array(items)@ == Frame::Array(frames(items@)),
{
    reveal_with_fuel(frame_of, 2);
    let whole = RespValue::Array(items);
    assert(whole@ is Array);
    assert(whole@->Array_0.len() == items@.len());
    assert forall|i: int| 0 <= i < items@.len() implies whole@->Array_0[i] == frames(items@)[i] by {
    }
    assert(whole@->Array_0 =~= frames(items@));
}

impl Clone for RespValue {
    /// A deep copy.
    fn clone(&self) -> (r: Self)
        ensures
            r@ == self@,
        decreases self,
    {
        match self {
            RespValue::SimpleString(s) => RespValue::SimpleString(s.clone()),
            RespValue::Error(s) => RespValue::Error(s.clone()),
            RespValue::Integer(i) => RespValue::Integer(*i),
            RespValue::BulkString(b) => RespValue::BulkString(
                crate::octets::copy_bytes(b.as_slice()),
            ),
            RespValue::Null => RespValue::Null,
            RespValue::Array(items) => {
                let mut out: Vec<RespValue> = Vec::new();
                let mut i: usize = 0;
                proof {
                    assert forall|j: int| 0 <= j < items@.len() implies decreases_to!(*self => #[trigger] items@[j]) by {
                        vstd::std_specs::vec::axiom_vec_index_decreases(*items, j);
                    }
                }
                while i < items.len()
                    invariant
                        forall|j: int| 0 <= j < items@.len() ==> decreases_to!(*self => #[trigger] items@[j]),
                        i <= items@.len(),
                        out@.len() == i,
                        forall|j: int| 0 <= j < i ==> out@[j]@ == items@[j]@,
                    decreases items@.len() - i,
                {
                    let item = &items[i];
                    proof {
                        vstd::std_specs::vec::axiom_vec_index_decreases(*items, i as int);
                        assert(*item == items@[i as int]);
                    }
                    out.push(item.clone());
                    i += 1;
                }
                proof {
                    lemma_array_view(out);
                    lemma_array_view(*items);
                    assert(frames(out@) =~= frames(items@));
                }
                RespValue::Array(out)
            },
        }
    }
}

impl RespValue {
    /// A simple string.
    pub fn simple_string(s: &str) -> (r: Self)
        ensures
            r@ == Frame::SimpleString(s@),
    {
        RespValue::SimpleString(String::from_str(s))
    }

    /// An error.
    pub fn error(s: &str) -> (r: Self)
        ensures
            r@ == Frame::Error(s@),
    {
        RespValue::Error(String::from_str(s))
    }

    /// An integer.
    pub fn integer(i: i64) -> (r: Self)
        ensures
            r@ == Frame::Integer(i),
    {
        RespValue::Integer(i)
    }

    /// A bulk string.
    pub fn bulk_string(b: Vec<u8>) -> (r: Self)
        ensures
            r@ == Frame::BulkString(b@),
    {
        RespValue::BulkString(b)
    }

    /// The null value.
    pub fn null() -> (r: Self)
        ensures
            r@ == Frame::Null,
    {
        RespValue::Null
    }

    /// An array.
    pub fn array(v: Vec<RespValue>) -> (r: Self)
        ensures
            r@ == Frame::Array(frames(v@)),
    {
        proof {
            lemma_array_view(v);
        }
        RespValue::Array(v)
    }

    /// Whether this is an array.
    pub fn is_array(&self) -> (r: bool)
        ensures
            r == (self@ is Array),
    {
        match self {
            RespValue::Array(_) => true,
            _ => false,
        }
    }

    /// The items of an array.
    pub fn as_array(&self) -> (r: Option<&Vec<RespValue>>)
        ensures
            match r {
                Some(items) => self@ == Frame::Array(frames(items@)),
                None => !(self@ is Array),
            },
    {
        match self {
            RespValue::Array(items) => {
                proof {
                    lemma_array_view(*items);
                }
                Some(items)
            },
            _ => None,
        }
    }

    /// The bytes of a bulk string.
    pub fn as_bulk_string(&self) -> (r: Option<&Vec<u8>>)
        ensures
            match r {
                Some(b) => self@ == Frame::BulkString(b@),
                None => !(self@ is BulkString),
            },
    {
        match self {
            RespValue::BulkString(b) => Some(b),
            _ => None,
        }
    }

    /// The number of an integer.
    pub fn as_integer(&self) -> (r: Option<i64>)
        ensures
            match r {
                Some(i) => self@ == Frame::Integer(i),
                None => !(self@ is Integer),
            },
    {
        match self {
            RespValue::Integer(i) => Some(*i),
            _ => None,
        }
    }

    /// A short description of the value, for logs.
    pub fn describe(&self) -> (r: String)
        ensures
            r@ == describe_frame(self@),
    {
        match self {
            RespValue::SimpleString(s) => {
                let mut out = concat("SimpleString(", s.as_str());
                out.append(")");
                out
            },
            RespValue::Error(e) => {
                let mut out = concat("Error(", e.as_str());
                out.append(")");
                out
            },
            RespValue::Integer(i) => {
                let mut out = String::from_str("Integer(");
                push_i64(&mut out, *i);
                out.append(")");
                out
            },
            RespValue::BulkString(b) => {
                let mut out = String::from_str("BulkString(");
                push_u64(&mut out, b.len() as u64);
                out.append(" bytes)");
                out
            },
            RespValue::Null => String::from_str("Null"),
            RespValue::Array(items) => {
                proof {
                    lemma_array_view(*items);
                }
                let mut out = String::from_str("Array(");
                push_u64(&mut out, items.len() as u64);
                out.append(" elements)");
                out
            },
        }
    }
}

/// The description of a frame.
pub open spec fn describe_frame(f: Frame) -> Seq<char> {
    match f {
        Frame::SimpleString(s) => "SimpleString("@ + s + ")"@,
        Frame::Error(e) => "Error("@ + e + ")"@,
        Frame::Integer(i) => "Integer("@ + decimal_text(i as int) + ")"@,
        Frame::BulkString(b) => "BulkString("@ + decimal_text(b.len() as int) + " bytes)"@,
        Frame::Null => "Null"@,
        Frame::Array(items) => "Array("@ + decimal_text(items.len() as int) + " elements)"@,
    }
}

/// Why a buffer could not be read as a RESP2 value.
#[derive(Debug, Clone, PartialEq)]
pub enum RespError {
    /// More bytes are needed.
    Incomplete,
    /// The bytes break the protocol.
    InvalidProtocol(String),
    /// Text that must be UTF-8 is not.
    InvalidUtf8,
    /// A number is not a decimal `i64`.
    IntegerOverflow,
    /// Reading failed.
    IoError(String),
}

/// What a `RespError` stands for.
pub ghost enum RespErrorView {
    Incomplete,
    InvalidProtocol(Seq<char>),
    InvalidUtf8,
    IntegerOverflow,
    IoError(Seq<char>),
}

impl View for RespError {
    type V = RespErrorView;

    open spec fn view(&self) -> RespErrorView {
        match self {
            RespError::Incomplete => RespErrorView::Incomplete,
            RespError::InvalidProtocol(m) => RespErrorView::InvalidProtocol(m@),
            RespError::InvalidUtf8 => RespErrorView::InvalidUtf8,
            RespError::IntegerOverflow => RespErrorView::IntegerOverflow,
            RespError::IoError(m) => RespErrorView::IoError(m@),
        }
    }
}

impl RespErrorView {
    /// The error in words.
    pub open spec fn message(self) -> Seq<char> {
        match self {
            RespErrorView::Incomplete => "Incomplete data"@,
            RespErrorView::InvalidProtocol(m) => "Invalid protocol: "@ + m,
            RespErrorView::InvalidUtf8 => "Invalid UTF-8"@,
            RespErrorView::IntegerOverflow => "Integer overflow"@,
            RespErrorView::IoError(m) => "IO error: "@ + m,
        }
    }
}

impl RespError {
    /// The error in words.
    pub fn message(&self) -> (r: String)
        ensures
            r@ == self@.message(),
    {
        match self {
            RespError::Incomplete => String::from_str("Incomplete data"),
            RespError::InvalidProtocol(m) => concat("Invalid protocol: ", m.as_str()),
            RespError::InvalidUtf8 => String::from_str("Invalid UTF-8"),
            RespError::IntegerOverflow => String::from_str("Integer overflow"),
            RespError::IoError(m) => concat("IO error: ", m.as_str()),
        }
    }
}

} // verus!
