//! Reading the descriptions of IPC interfaces that reverse engineering tools
//! write as Python literals: a file maps interface names to their methods,
//! and each method is a dictionary of numbers, flags and lists.

use vstd::prelude::*;
use vstd::string::StringSliceAdditionalSpecFns;
use vstd::string::StringExecFns;
use vstd::utf8::encode_utf8;
use crate::swipc::text::bytes_eq;

verus! {

#[verifier::external_type_specification]
#[verifier::external_body]
pub struct ExPyLiteralValue(py_literal::Value);

/// A Python literal, as this library reads it. An integer is kept when it is
/// within `u64`; floating-point and complex numbers are kept without their
/// value.
#[derive(Debug)]
pub enum PyValue {
    Str(String),
    Bytes(Vec<u8>),
    Int(Option<u64>),
    Float,
    Complex,
    Tuple(Vec<PyValue>),
    List(Vec<PyValue>),
    Dict(Vec<(PyValue, PyValue)>),
    SetOf(Vec<PyValue>),
    Boolean(bool),
    NoneValue,
}

/// What `py_literal` parses `s` into, as a `PyValue`; `None` when it is not a
/// Python literal.
pub uninterp spec fn py_parse(s: Seq<u8>) -> Option<PyValue>;

/// Parse a Python literal.
///
/// Calls `<py_literal::Value as FromStr>::from_str` and converts the value;
/// the contract names the result as a function of the text.
#[verifier::external_body]
fn parse_py_literal(s: &str) -> (r: Option<PyValue>)
    ensures
        r == py_parse(s.spec_bytes()),
{
    match <py_literal::Value as core::str::FromStr>::from_str(s) {
        Ok(v) => Some(py_value_of(&v)),
        Err(_) => None,
    }
}

/// The `PyValue` of a `py_literal::Value`, one variant for another.
#[verifier::external_body]
fn py_value_of(v: &py_literal::Value) -> PyValue {
    match v {
        py_literal::Value::String(s) => PyValue::Str(s.clone()),
        py_literal::Value::Bytes(b) => PyValue::Bytes(b.clone()),
        py_literal::Value::Integer(i) => PyValue::Int(u64::try_from(i).ok()),
        py_literal::Value::Float(_) => PyValue::Float,
        py_literal::Value::Complex(_) => PyValue::Complex,
        py_literal::Value::Tuple(t) => PyValue::Tuple(py_values_of(t)),
        py_literal::Value::List(l) => PyValue::List(py_values_of(l)),
        py_literal::Value::Dict(d) => PyValue::Dict(py_pairs_of(d)),
        py_literal::Value::Set(s) => PyValue::SetOf(py_values_of(s)),
        py_literal::Value::Boolean(b) => PyValue::Boolean(*b),
        py_literal::Value::None => PyValue::NoneValue,
    }
}

/// The `PyValue`s of a list of `py_literal::Value`s, in order.
#[verifier::external_body]
fn py_values_of(v: &[py_literal::Value]) -> Vec<PyValue> {
    v.iter().map(py_value_of).collect()
}

/// The `PyValue` pairs of a dictionary's entries, in order.
#[verifier::external_body]
fn py_pairs_of(d: &[(py_literal::Value, py_literal::Value)]) -> Vec<(PyValue, PyValue)> {
    d.iter().map(|(k, v)| (py_value_of(k), py_value_of(v))).collect()
}

/// The bytes of a string.
pub open spec fn str_bytes(s: String) -> Seq<u8> {
    encode_utf8(s@)
}

/// Whether every key of a dictionary is a string.
pub open spec fn string_keys(d: Seq<(PyValue, PyValue)>) -> bool {
    forall|i: int| 0 <= i < d.len() ==> (#[trigger] d[i]).0 is Str
}

/// The value of the last entry whose key is the string `key`: the one that
/// stays when the entries are collected into a map.
pub open spec fn dict_get(d: Seq<(PyValue, PyValue)>, key: Seq<u8>) -> Option<PyValue>
    decreases d.len(),
{
    if d.len() == 0 {
        None
    } else {
        match d.last().0 {
            PyValue::Str(k) => if str_bytes(k) == key {
                Some(d.last().1)
            } else {
                dict_get(d.drop_last(), key)
            },
            _ => dict_get(d.drop_last(), key),
        }
    }
}

/// An integer within `u32`.
pub open spec fn as_u32(v: PyValue) -> Option<u32> {
    match v {
        PyValue::Int(Some(n)) => if n <= u32::MAX {
            Some(n as u32)
        } else {
            None
        },
        _ => None,
    }
}

/// An integer within `u64`.
pub open spec fn as_u64(v: PyValue) -> Option<u64> {
    match v {
        PyValue::Int(Some(n)) => Some(n),
        _ => None,
    }
}

/// A list of integers within `u32`.
pub open spec fn is_u32_list(v: PyValue) -> bool {
    match v {
        PyValue::List(l) => forall|i: int| 0 <= i < l@.len() ==> as_u32(#[trigger] l@[i]) is Some,
        _ => false,
    }
}

/// The integers of a list of integers within `u32`.
pub open spec fn u32_list(v: PyValue) -> Seq<u32> {
    match v {
        PyValue::List(l) => l@.map_values(|x: PyValue| as_u32(x)->0),
        _ => Seq::empty(),
    }
}

/// A list of strings.
pub open spec fn is_str_list(v: PyValue) -> bool {
    match v {
        PyValue::List(l) => forall|i: int| 0 <= i < l@.len() ==> (#[trigger] l@[i]) is Str,
        _ => false,
    }
}

/// A list of strings and `None`s.
pub open spec fn is_opt_str_list(v: PyValue) -> bool {
    match v {
        PyValue::List(l) => forall|i: int| 0 <= i < l@.len() ==> (#[trigger] l@[i]) is Str || l@[i] is NoneValue,
        _ => false,
    }
}

/// An optional entry holds a value of the wanted kind.
pub open spec fn opt_ok(v: Option<PyValue>, ok: spec_fn(PyValue) -> bool) -> bool {
    match v {
        Some(x) => ok(x),
        None => true,
    }
}

/// A dictionary that describes a method: string keys; `vt`, `lr`, `inbytes`
/// and `outbytes` present as integers (`lr` within `u64`, the others within
/// `u32`); `func` an integer within `u64` if present; `pid` a boolean if
/// present; `buffers`, `inhandles` and `outhandles` lists of integers within
/// `u32`, `ininterfaces` a list of strings and `outinterfaces` a list of
/// strings and `None`s, if present.
pub open spec fn method_ok(v: PyValue) -> bool {
    match v {
        PyValue::Dict(d) => {
            let d = d@;
            &&& string_keys(d)
            &&& (dict_get(d, "vt".spec_bytes()) matches Some(x) && as_u32(x) is Some)
            &&& opt_ok(dict_get(d, "func".spec_bytes()), |x: PyValue| as_u64(x) is Some)
            &&& (dict_get(d, "lr".spec_bytes()) matches Some(x) && as_u64(x) is Some)
            &&& (dict_get(d, "inbytes".spec_bytes()) matches Some(x) && as_u32(x) is Some)
            &&& (dict_get(d, "outbytes".spec_bytes()) matches Some(x) && as_u32(x) is Some)
            &&& opt_ok(dict_get(d, "pid".spec_bytes()), |x: PyValue| x is Boolean)
            &&& opt_ok(dict_get(d, "buffers".spec_bytes()), |x: PyValue| is_u32_list(x))
            &&& opt_ok(dict_get(d, "ininterfaces".spec_bytes()), |x: PyValue| is_str_list(x))
            &&& opt_ok(dict_get(d, "outinterfaces".spec_bytes()), |x: PyValue| is_opt_str_list(x))
            &&& opt_ok(dict_get(d, "inhandles".spec_bytes()), |x: PyValue| is_u32_list(x))
            &&& opt_ok(dict_get(d, "outhandles".spec_bytes()), |x: PyValue| is_u32_list(x))
        },
        _ => false,
    }
}

/// A method of an interface.
#[derive(Debug)]
pub struct IpcMethod {
    pub virtual_table_offset: u32,
    /// Probably just an address of the implementation?
    pub function_address: Option<u64>,
    pub lr_value: u64,
    /// How many raw payload bytes does the function take
    pub in_bytes: u32,
    /// How many raw payload bytes does the function return
    pub out_bytes: u32,
    /// Whether the client should use "send pid" feature of CMIF to send its PID to the server
    pub pid: bool,
    /// Types of buffers used by the function
    pub buffers: Vec<u32>,
    pub in_interfaces: Vec<String>,
    pub out_interfaces: Vec<Option<String>>,
    pub in_handles: Vec<u32>,
    pub out_handles: Vec<u32>,
}

/// The strings of a list of strings.
pub open spec fn str_list(v: PyValue) -> Seq<Seq<char>> {
    match v {
        PyValue::List(l) => l@.map_values(|x: PyValue| match x {
            PyValue::Str(s) => s@,
            _ => Seq::empty(),
        }),
        _ => Seq::empty(),
    }
}

/// The strings and `None`s of a list of them.
pub open spec fn opt_str_list(v: PyValue) -> Seq<Option<Seq<char>>> {
    match v {
        PyValue::List(l) => l@.map_values(|x: PyValue| match x {
            PyValue::Str(s) => Some(s@),
            _ => None,
        }),
        _ => Seq::empty(),
    }
}

/// The integers of an optional list; empty when it is absent.
pub open spec fn opt_u32_list(v: Option<PyValue>) -> Seq<u32> {
    match v {
        Some(x) => u32_list(x),
        None => Seq::empty(),
    }
}

impl IpcMethod {
    /// The method holds what the dictionary says.
    pub open spec fn describes(&self, v: PyValue) -> bool {
        match v {
            PyValue::Dict(d) => {
                let d = d@;
                &&& self.virtual_table_offset == as_u32(dict_get(d, "vt".spec_bytes())->0)->0
                &&& self.function_address == (match dict_get(d, "func".spec_bytes()) {
                    Some(x) => as_u64(x),
                    None => None,
                })
                &&& self.lr_value == as_u64(dict_get(d, "lr".spec_bytes())->0)->0
                &&& self.in_bytes == as_u32(dict_get(d, "inbytes".spec_bytes())->0)->0
                &&& self.out_bytes == as_u32(dict_get(d, "outbytes".spec_bytes())->0)->0
                &&& self.pid == (match dict_get(d, "pid".spec_bytes()) {
                    Some(PyValue::Boolean(b)) => b,
                    _ => false,
                })
                &&& self.buffers@ == opt_u32_list(dict_get(d, "buffers".spec_bytes()))
                &&& self.in_interfaces@.map_values(|s: String| s@) == (match dict_get(d, "ininterfaces".spec_bytes()) {
                    Some(x) => str_list(x),
                    None => Seq::empty(),
                })
                &&& self.out_interfaces@.map_values(|s: Option<String>| match s {
                    Some(t) => Some(t@),
                    None => None,
                }) == (match dict_get(d, "outinterfaces".spec_bytes()) {
                    Some(x) => opt_str_list(x),
                    None => Seq::empty(),
                })
                &&& self.in_handles@ == opt_u32_list(dict_get(d, "inhandles".spec_bytes()))
                &&& self.out_handles@ == opt_u32_list(dict_get(d, "outhandles".spec_bytes()))
            },
            _ => false,
        }
    }
}

/// Whether a string's bytes are `key`.
fn key_is(k: &String, key: &str) -> (r: bool)
    ensures
        r == (str_bytes(*k) == key.spec_bytes()),
{
    bytes_eq(k.as_str().as_bytes(), key.as_bytes())
}

/// The value of the last entry whose key is the string `key`.
fn get<'a>(d: &'a Vec<(PyValue, PyValue)>, key: &str) -> (r: Option<&'a PyValue>)
    ensures
        match dict_get(d@, key.spec_bytes()) {
            Some(v) => (r matches Some(x) && *x == v),
            None => r is None,
        },
{
    let mut i: usize = d.len();
    assert(d@.take(d@.len() as int) =~= d@);
    while i > 0
        invariant
            i <= d@.len(),
            dict_get(d@, key.spec_bytes()) == dict_get(d@.take(i as int), key.spec_bytes()),
        decreases i,
    {
        let ghost t = d@.take(i as int);
        assert(t.drop_last() =~= d@.take(i - 1));
        assert(t.last() == d@[i - 1]);
        match &d[i - 1].0 {
            PyValue::Str(k) => {
                if key_is(k, key) {
                    return Some(&d[i - 1].1);
                }
            },
            _ => {},
        }
        i = i - 1;
    }
    assert(d@.take(0) =~= Seq::<(PyValue, PyValue)>::empty());
    None
}

fn int_u32(v: &PyValue) -> (r: Option<u32>)
    ensures
        r == as_u32(*v),
{
    match v {
        PyValue::Int(Some(n)) => if *n <= 0xffff_ffff {
            Some(*n as u32)
        } else {
            None
        },
        _ => None,
    }
}

fn int_u64(v: &PyValue) -> (r: Option<u64>)
    ensures
        r == as_u64(*v),
{
    match v {
        PyValue::Int(Some(n)) => Some(*n),
        _ => None,
    }
}

/// The integers of a list, if it is a list of integers within `u32`.
fn read_u32_list(v: &PyValue) -> (r: Option<Vec<u32>>)
    ensures
        r is Some <==> is_u32_list(*v),
        r matches Some(l) ==> l@ == u32_list(*v),
{
    match v {
        PyValue::List(l) => {
            let mut out: Vec<u32> = Vec::new();
            let mut i: usize = 0;
            while i < l.len()
                invariant
                    i <= l@.len(),
                    *v == PyValue::List(*l),
                    out@.len() == i,
                    forall|j: int| 0 <= j < i ==> as_u32(#[trigger] l@[j]) == Some(out@[j]),
                decreases l@.len() - i,
            {
                match int_u32(&l[i]) {
                    Some(x) => out.push(x),
                    None => {
                        assert(as_u32(l@[i as int]) is None);
                        return None;
                    },
                }
                i = i + 1;
            }
            assert(out@ =~= l@.map_values(|x: PyValue| as_u32(x)->0));
            Some(out)
        },
        _ => None,
    }
}

/// The strings of a list, if it is a list of strings.
fn read_str_list(v: &PyValue) -> (r: Option<Vec<String>>)
    ensures
        r is Some <==> is_str_list(*v),
        r matches Some(l) ==> l@.map_values(|s: String| s@) == str_list(*v),
{
    match v {
        PyValue::List(l) => {
            let mut out: Vec<String> = Vec::new();
            let mut i: usize = 0;
            while i < l.len()
                invariant
                    i <= l@.len(),
                    *v == PyValue::List(*l),
                    out@.len() == i,
                    forall|j: int| 0 <= j < i ==> ((#[trigger] l@[j]) matches PyValue::Str(s) && s@ == out@[j]@),
                decreases l@.len() - i,
            {
                match &l[i] {
                    PyValue::Str(s) => out.push(s.clone()),
                    _ => {
                        assert(!(l@[i as int] is Str));
                        return None;
                    },
                }
                i = i + 1;
            }
            assert(out@.map_values(|s: String| s@) =~= str_list(*v));
            Some(out)
        },
        _ => None,
    }
}

/// The strings and `None`s of a list, if it holds nothing else.
fn read_opt_str_list(v: &PyValue) -> (r: Option<Vec<Option<String>>>)
    ensures
        r is Some <==> is_opt_str_list(*v),
        r matches Some(l) ==> l@.map_values(|s: Option<String>| match s {
            Some(t) => Some(t@),
            None => None,
        }) == opt_str_list(*v),
{
    match v {
        PyValue::List(l) => {
            let mut out: Vec<Option<String>> = Vec::new();
            let mut i: usize = 0;
            while i < l.len()
                invariant
                    i <= l@.len(),
                    *v == PyValue::List(*l),
                    out@.len() == i,
                    forall|j: int| 0 <= j < i ==> match (#[trigger] l@[j]) {
                        PyValue::Str(s) => (out@[j] matches Some(t) && t@ == s@),
                        PyValue::NoneValue => out@[j] is None,
                        _ => false,
                    },
                decreases l@.len() - i,
            {
                match &l[i] {
                    PyValue::Str(s) => out.push(Some(s.clone())),
                    PyValue::NoneValue => out.push(None),
                    _ => {
                        assert(!(l@[i as int] is Str || l@[i as int] is NoneValue));
                        return None;
                    },
                }
                i = i + 1;
            }
            assert(out@.map_values(|s: Option<String>| match s {
                Some(t) => Some(t@),
                None => None,
            }) =~= opt_str_list(*v));
            Some(out)
        },
        _ => None,
    }
}

/// Why a literal does not describe what it should.
#[derive(Clone, Copy, PartialEq, Eq, Debug, Structural)]
pub enum LiteralError {
    /// The text is not a Python literal.
    Syntax,
    /// The literal does not have the expected shape.
    Shape,
}

impl IpcMethod {
    /// The method a dictionary describes; `None` when it does not have the
    /// shape of a method.
    pub fn from_pyliteral(lit: &PyValue) -> (r: Option<Self>)
        ensures
            r is Some <==> method_ok(*lit),
            r matches Some(m) ==> m.describes(*lit),
    {
        let d = match lit {
            PyValue::Dict(d) => d,
            _ => {
                return None;
            },
        };
        let mut i: usize = 0;
        while i < d.len()
            invariant
                i <= d@.len(),
                *lit == PyValue::Dict(*d),
                forall|j: int| 0 <= j < i ==> (#[trigger] d@[j]).0 is Str,
            decreases d@.len() - i,
        {
            match &d[i].0 {
                PyValue::Str(_) => {},
                _ => {
                    assert(!(d@[i as int].0 is Str));
                    return None;
                },
            }
            i = i + 1;
        }
        let virtual_table_offset = match get(d, "vt") {
            Some(v) => match int_u32(v) {
                Some(x) => x,
                None => {
                    return None;
                },
            },
            None => {
                return None;
            },
        };
        let function_address = match get(d, "func") {
            Some(v) => match int_u64(v) {
                Some(x) => Some(x),
                None => {
                    return None;
                },
            },
            None => None,
        };
        let lr_value = match get(d, "lr") {
            Some(v) => match int_u64(v) {
                Some(x) => x,
                None => {
                    return None;
                },
            },
            None => {
                return None;
            },
        };
        let in_bytes = match get(d, "inbytes") {
            Some(v) => match int_u32(v) {
                Some(x) => x,
                None => {
                    return None;
                },
            },
            None => {
                return None;
            },
        };
        let out_bytes = match get(d, "outbytes") {
            Some(v) => match int_u32(v) {
                Some(x) => x,
                None => {
                    return None;
                },
            },
            None => {
                return None;
            },
        };
        let pid = match get(d, "pid") {
            Some(PyValue::Boolean(b)) => *b,
            Some(_) => {
                return None;
            },
            None => false,
        };
        let buffers = match get(d, "buffers") {
            Some(v) => match read_u32_list(v) {
                Some(l) => l,
                None => {
                    return None;
                },
            },
            None => Vec::new(),
        };
        let in_interfaces = match get(d, "ininterfaces") {
            Some(v) => match read_str_list(v) {
                Some(l) => l,
                None => {
                    return None;
                },
            },
            None => Vec::new(),
        };
        let out_interfaces = match get(d, "outinterfaces") {
            Some(v) => match read_opt_str_list(v) {
                Some(l) => l,
                None => {
                    return None;
                },
            },
            None => Vec::new(),
        };
        let in_handles = match get(d, "inhandles") {
            Some(v) => match read_u32_list(v) {
                Some(l) => l,
                None => {
                    return None;
                },
            },
            None => Vec::new(),
        };
        let out_handles = match get(d, "outhandles") {
            Some(v) => match read_u32_list(v) {
                Some(l) => l,
                None => {
                    return None;
                },
            },
            None => Vec::new(),
        };
        let r = IpcMethod {
            virtual_table_offset,
            function_address,
            lr_value,
            in_bytes,
            out_bytes,
            pid,
            buffers,
            in_interfaces,
            out_interfaces,
            in_handles,
            out_handles,
        };
        proof {
            assert(r.in_interfaces@.map_values(|s: String| s@) =~= (match dict_get(d@, "ininterfaces".spec_bytes()) {
                Some(x) => str_list(x),
                None => Seq::empty(),
            }));
            assert(r.out_interfaces@.map_values(|s: Option<String>| match s {
                Some(t) => Some(t@),
                None => None,
            }) =~= (match dict_get(d@, "outinterfaces".spec_bytes()) {
                Some(x) => opt_str_list(x),
                None => Seq::empty(),
            }));
        }
        Some(r)
    }

    /// The method that the Python literal `s` describes.
    pub fn parse(s: &str) -> (r: Result<Self, LiteralError>)
        ensures
            match py_parse(s.spec_bytes()) {
                None => r == Err::<Self, LiteralError>(LiteralError::Syntax),
                Some(v) => if method_ok(v) {
                    (r matches Ok(m) && m.describes(v))
                } else {
                    r == Err::<Self, LiteralError>(LiteralError::Shape)
                },
            },
    {
        match parse_py_literal(s) {
            None => Err(LiteralError::Syntax),
            Some(v) => match Self::from_pyliteral(&v) {
                Some(m) => Ok(m),
                None => Err(LiteralError::Shape),
            },
        }
    }
}

/// The method value of the last entry whose key is the integer `k`: the one
/// that stays when the entries are collected into a map.
pub open spec fn last_with_key(d: Seq<(PyValue, PyValue)>, k: u32) -> Option<PyValue>
    decreases d.len(),
{
    if d.len() == 0 {
        None
    } else if as_u32(d.last().0) == Some(k) {
        Some(d.last().1)
    } else {
        last_with_key(d.drop_last(), k)
    }
}

/// An entry that describes an interface: a string name and a dictionary
/// from integers within `u32` to methods.
pub open spec fn interface_ok(e: (PyValue, PyValue)) -> bool {
    &&& e.0 is Str
    &&& match e.1 {
        PyValue::Dict(d) => forall|i: int| 0 <= i < d@.len() ==> as_u32((#[trigger] d@[i]).0) is Some
            && method_ok(d@[i].1),
        _ => false,
    }
}

/// An interface and its methods, by command id.
#[derive(Debug)]
pub struct IpcInterface {
    pub raw_name: String,
    /// The methods, in increasing order of their ids, each id once.
    pub methods: Vec<(u32, IpcMethod)>,
}

/// The methods are in strictly increasing order of their ids, and each is
/// what the last entry of `d` with its id describes.
pub open spec fn methods_match(m: Seq<(u32, IpcMethod)>, d: Seq<(PyValue, PyValue)>) -> bool {
    &&& forall|a: int, b: int| 0 <= a < b < m.len() ==> (#[trigger] m[a]).0 < (#[trigger] m[b]).0
    &&& forall|j: int| 0 <= j < m.len() ==> (last_with_key(d, (#[trigger] m[j]).0) matches Some(v) && m[j].1.describes(v))
    &&& forall|t: int| 0 <= t < d.len() ==> exists|j: int| 0 <= j < m.len() && (#[trigger] m[j]).0 == as_u32((#[trigger] d[t]).0)->0
}

impl IpcInterface {
    /// The interface that a name and its dictionary of methods describe.
    pub fn from_pyliteral(entry: &(PyValue, PyValue)) -> (r: Option<Self>)
        ensures
            r is Some <==> interface_ok(*entry),
            r matches Some(i) ==> (entry.0 matches PyValue::Str(n) && i.raw_name@ == n@)
                && (entry.1 matches PyValue::Dict(d) && methods_match(i.methods@, d@)),
    {
        let raw_name = match &entry.0 {
            PyValue::Str(n) => n.clone(),
            _ => {
                return None;
            },
        };
        let d = match &entry.1 {
            PyValue::Dict(d) => d,
            _ => {
                return None;
            },
        };
        let mut methods: Vec<(u32, IpcMethod)> = Vec::new();
        let mut i: usize = 0;
        while i < d.len()
            invariant
                i <= d@.len(),
                entry.1 == PyValue::Dict(*d),
                forall|t: int| 0 <= t < i ==> as_u32((#[trigger] d@[t]).0) is Some && method_ok(d@[t].1),
                methods_match(methods@, d@.take(i as int)),
            decreases d@.len() - i,
        {
            let k = match int_u32(&d[i].0) {
                Some(k) => k,
                None => {
                    assert(!interface_ok(*entry)) by {
                        assert(as_u32(d@[i as int].0) is None);
                    }
                    return None;
                },
            };
            let m = match IpcMethod::from_pyliteral(&d[i].1) {
                Some(m) => m,
                None => {
                    assert(!interface_ok(*entry)) by {
                        assert(!method_ok(d@[i as int].1));
                    }
                    return None;
                },
            };
            let ghost d0 = d@.take(i as int);
            let ghost d1 = d@.take(i + 1);
            proof {
                assert(d1.drop_last() =~= d0);
                assert(d1.last() == d@[i as int]);
                assert forall|k2: u32| k2 != k implies last_with_key(d1, k2) == last_with_key(d0, k2) by {}
                assert(last_with_key(d1, k) == Some(d@[i as int].1));
            }
            let mut p: usize = 0;
            while p < methods.len() && methods[p].0 < k
                invariant
                    p <= methods@.len(),
                    forall|a: int| 0 <= a < p ==> (#[trigger] methods@[a]).0 < k,
                decreases methods@.len() - p,
            {
                p = p + 1;
            }
            let ghost before = methods@;
            if p < methods.len() && methods[p].0 == k {
                methods.set(p, (k, m));
                proof {
                    assert forall|t: int| 0 <= t < i + 1 implies exists|j: int| 0 <= j < methods@.len()
                        && (#[trigger] methods@[j]).0 == as_u32((#[trigger] d1[t]).0)->0 by {
                        if t < i {
                            assert(d1[t] == d0[t]);
                            let j = choose|j: int| 0 <= j < before.len() && (#[trigger] before[j]).0 == as_u32((#[trigger] d0[t]).0)->0;
                            assert(methods@[j].0 == before[j].0);
                        } else {
                            assert(methods@[p as int].0 == k);
                        }
                    }
                }
            } else {
                methods.insert(p, (k, m));
                proof {
                    assert forall|j: int| 0 <= j < before.len() implies before[j].0 != k by {
                        if j < p {
                        } else {
                            assert(before[p as int].0 > k);
                            if j > p {
                                assert(before[p as int].0 < before[j].0);
                            }
                        }
                    }
                    assert forall|t: int| 0 <= t < i + 1 implies exists|j: int| 0 <= j < methods@.len()
                        && (#[trigger] methods@[j]).0 == as_u32((#[trigger] d1[t]).0)->0 by {
                        if t < i {
                            assert(d1[t] == d0[t]);
                            let j = choose|j: int| 0 <= j < before.len() && (#[trigger] before[j]).0 == as_u32((#[trigger] d0[t]).0)->0;
                            if j < p {
                                assert(methods@[j] == before[j]);
                            } else {
                                assert(methods@[j + 1] == before[j]);
                            }
                        } else {
                            assert(methods@[p as int].0 == k);
                        }
                    }
                }
            }
            i = i + 1;
        }
        assert(d@.take(d@.len() as int) =~= d@);
        Some(IpcInterface { raw_name, methods })
    }
}

/// An entry that describes a file: a string name and a dictionary of interfaces.
pub open spec fn file_ok(e: (PyValue, PyValue)) -> bool {
    &&& e.0 is Str
    &&& match e.1 {
        PyValue::Dict(d) => forall|i: int| 0 <= i < d@.len() ==> interface_ok(#[trigger] d@[i]),
        _ => false,
    }
}

/// The interfaces of a program, as a reverse engineering tool lists them.
#[derive(Debug)]
pub struct IpcFile {
    pub name: String,
    pub interfaces: Vec<IpcInterface>,
}

/// The characters of `s` from `i` on, with every comment, from a `#` up to
/// the next line feed or the end, taken out; `in_comment` when `i` is inside
/// one. Line feeds stay.
pub open spec fn strip_comments_from(s: Seq<char>, i: int, in_comment: bool) -> Seq<char>
    decreases s.len() - i,
{
    if i < 0 || i >= s.len() {
        Seq::empty()
    } else if s[i] == '\n' {
        seq!['\n'] + strip_comments_from(s, i + 1, false)
    } else if in_comment || s[i] == '#' {
        strip_comments_from(s, i + 1, true)
    } else {
        seq![s[i]] + strip_comments_from(s, i + 1, false)
    }
}

/// `s` with every comment, from a `#` to the end of its line, taken out.
pub open spec fn py_comments_stripped(s: Seq<char>) -> Seq<char> {
    strip_comments_from(s, 0, false)
}

/// Take the comments out of Python text.
///
/// Calls `regex::Regex::replace_all` with the multi-line pattern `#.*$` and
/// an empty replacement: each match starts at a `#` and, since `.` does not
/// match a line feed, runs up to the next line feed or the end of the text,
/// which is what the contract states.
#[verifier::external_body]
fn strip_py_comments(s: &str) -> (r: String)
    ensures
        r@ == py_comments_stripped(s@),
{
    regex::RegexBuilder::new("#.*$").multi_line(true).build().unwrap().replace_all(s, "").into_owned()
}

/// The text between braces.
fn braced(s: &str) -> (r: String)
    ensures
        r@ == seq!['{'] + s@ + seq!['}'],
{
    let open = "{";
    let close = "}";
    proof {
        reveal_strlit("{");
        reveal_strlit("}");
    }
    let mut r = String::from_str(open);
    r.append(s);
    r.append(close);
    assert(r@ =~= seq!['{'] + s@ + seq!['}']);
    r
}

/// The text with line feeds turned into spaces.
///
/// Calls `str::replace`; the contract states what its documentation gives for
/// a one-character pattern and replacement.
#[verifier::external_body]
fn newlines_to_spaces(s: &str) -> (r: String)
    ensures
        r@ == s@.map_values(|c: char| if c == '\n' { ' ' } else { c }),
{
    s.replace("\n", " ")
}

/// The text that is parsed as a literal for the file text `s`: in braces,
/// comments taken out, line feeds turned into spaces.
pub open spec fn file_literal_text(s: Seq<char>) -> Seq<char> {
    py_comments_stripped(seq!['{'] + s + seq!['}']).map_values(|c: char| if c == '\n' { ' ' } else { c })
}

/// The file holds what the entry says: its name, and its interfaces in order.
pub open spec fn file_matches(f: IpcFile, entry: (PyValue, PyValue)) -> bool {
    &&& (entry.0 matches PyValue::Str(n) && f.name@ == n@)
    &&& (entry.1 matches PyValue::Dict(d) && f.interfaces@.len() == d@.len()
        && forall|i: int| 0 <= i < d@.len() ==> (d@[i].0 matches PyValue::Str(n)
            && (#[trigger] f.interfaces@[i]).raw_name@ == n@) && (d@[i].1 matches PyValue::Dict(md)
            && methods_match(f.interfaces@[i].methods@, md@)))
}

impl IpcFile {
    /// The file that a name and its dictionary of interfaces describe.
    pub fn from_pyliteral(entry: &(PyValue, PyValue)) -> (r: Option<Self>)
        ensures
            r is Some <==> file_ok(*entry),
            r matches Some(f) ==> file_matches(f, *entry),
    {
        let name = match &entry.0 {
            PyValue::Str(n) => n.clone(),
            _ => {
                return None;
            },
        };
        let d = match &entry.1 {
            PyValue::Dict(d) => d,
            _ => {
                return None;
            },
        };
        let mut interfaces: Vec<IpcInterface> = Vec::new();
        let mut i: usize = 0;
        while i < d.len()
            invariant
                i <= d@.len(),
                entry.1 == PyValue::Dict(*d),
                interfaces@.len() == i,
                forall|t: int| 0 <= t < i ==> interface_ok(#[trigger] d@[t]),
                forall|t: int| 0 <= t < i ==> (d@[t].0 matches PyValue::Str(n)
                    && (#[trigger] interfaces@[t]).raw_name@ == n@) && (d@[t].1 matches PyValue::Dict(md)
                    && methods_match(interfaces@[t].methods@, md@)),
            decreases d@.len() - i,
        {
            match IpcInterface::from_pyliteral(&d[i]) {
                Some(x) => interfaces.push(x),
                None => {
                    assert(!file_ok(*entry)) by {
                        assert(!interface_ok(d@[i as int]));
                        assert(entry.1 == PyValue::Dict(*d));
                        if file_ok(*entry) {
                            let dd = entry.1->Dict_0;
                            assert(dd == *d);
                            assert(forall|t: int| 0 <= t < dd@.len() ==> interface_ok(#[trigger] dd@[t]));
                            assert(interface_ok(dd@[i as int]));
                        }
                    }
                    return None;
                },
            }
            i = i + 1;
        }
        Some(IpcFile { name, interfaces })
    }

    /// The file that the text `s` describes: the text is one entry of a
    /// dictionary, a name and the interfaces; comments start with `#`.
    pub fn parse(s: &str) -> (r: Result<Self, LiteralError>)
        ensures
            match py_parse(encode_utf8(file_literal_text(s@))) {
                None => r == Err::<Self, LiteralError>(LiteralError::Syntax),
                Some(PyValue::Dict(d)) => if d@.len() > 0 && file_ok(d@[0]) {
                    (r matches Ok(f) && file_matches(f, d@[0]))
                } else {
                    r == Err::<Self, LiteralError>(LiteralError::Shape)
                },
                Some(_) => r == Err::<Self, LiteralError>(LiteralError::Shape),
            },
    {
        let text = braced(s);
        let text = strip_py_comments(text.as_str());
        let text = newlines_to_spaces(text.as_str());
        let lit = match parse_py_literal(text.as_str()) {
            Some(v) => v,
            None => {
                return Err(LiteralError::Syntax);
            },
        };
        let first = match &lit {
            PyValue::Dict(d) => {
                if d.len() == 0 {
                    return Err(LiteralError::Shape);
                }
                &d[0]
            },
            _ => {
                return Err(LiteralError::Shape);
            },
        };
        match Self::from_pyliteral(first) {
            Some(f) => Ok(f),
            None => Err(LiteralError::Shape),
        }
    }
}

} // verus!
