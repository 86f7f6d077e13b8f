//! The key latch: at most one logical key is held down at a time.
//!
//! A key is named by a one-character string, a lowercase hexadecimal digit
//! (`"0"` to `"9"`, `"a"` to `"f"`). The latch stores whatever name it is
//! given; the name is only examined when a numeric key code is asked for.

use vstd::prelude::*;
use vstd::string::*;

verus! {

#[derive(Debug, PartialEq)]
pub enum Error {
    /// The latch holds a name that is no lowercase hexadecimal digit.
    InvalidKey(String),
}

impl View for Error {
    type V = Seq<char>;

    /// The offending key name.
    open spec fn view(&self) -> Seq<char> {
        match self {
            Error::InvalidKey(name) => name@,
        }
    }
}

/// The view of the latch is the name of the key held down, if any.
#[derive(Debug)]
pub struct Input {
    key: Option<String>,
}

impl View for Input {
    type V = Option<Seq<char>>;

    closed spec fn view(&self) -> Option<Seq<char>> {
        match self.key {
            Some(name) => Some(name@),
            None => None,
        }
    }
}

/// The number a lowercase hexadecimal digit stands for.
pub open spec fn hex_digit_value(c: char) -> Option<u8> {
    if '0' <= c <= '9' {
        Some((c as u32 - '0' as u32) as u8)
    } else if 'a' <= c <= 'f' {
        Some((c as u32 - 'a' as u32 + 10) as u8)
    } else {
        None
    }
}

/// The key code of a key name: defined exactly for the sixteen
/// one-character names `"0"` to `"9"` and `"a"` to `"f"`.
pub open spec fn key_code(name: Seq<char>) -> Option<u8> {
    if name.len() == 1 {
        hex_digit_value(name[0])
    } else {
        None
    }
}

/// Every key code is a nibble.
pub proof fn lemma_key_code_is_nibble(name: Seq<char>)
    ensures
        key_code(name) matches Some(code) ==> code < 16,
{
}

fn hex_digit(c: char) -> (value: Option<u8>)
    ensures
        value == hex_digit_value(c),
{
    let code: u32 = c as u32;
    if code >= 0x30 && code <= 0x39 {
        Some((code - 0x30) as u8)
    } else if code >= 0x61 && code <= 0x66 {
        Some((code - 0x61 + 10) as u8)
    } else {
        None
    }
}

impl Input {
    /// A latch with no key held down.
    pub fn new() -> (input: Input)
        ensures
            input@ is None,
    {
        Input { key: None }
    }

    /// Holds `key` down, replacing any key held before.
    pub fn set_key(&mut self, key: &str)
        ensures
            final(self)@ == Some(key@),
    {
        self.key = Some(key.to_owned());
    }

    /// The name of the key held down, if any.
    pub fn get_key(&self) -> (key: Option<&str>)
        ensures
            match key {
                Some(name) => self@ == Some(name@),
                None => self@ is None,
            },
    {
        match &self.key {
            Some(name) => Some(name.as_str()),
            None => None,
        }
    }

    /// Releases the key.
    pub fn clear_key(&mut self)
        ensures
            final(self)@ is None,
    {
        self.key = None;
    }

    /// The key code of the key held down. No key is no error; a name that
    /// is no lowercase hexadecimal digit is reported with the name.
    pub fn get_key_u8(&self) -> (res: Result<Option<u8>, Error>)
        ensures
            match self@ {
                None => res == Ok::<Option<u8>, Error>(None),
                Some(name) => match key_code(name) {
                    Some(code) => res == Ok::<Option<u8>, Error>(Some(code)),
                    None => res is Err && res->Err_0@ == name,
                },
            },
    {
        match &self.key {
            None => Ok(None),
            Some(name) => {
                let text = name.as_str();
                if text.unicode_len() == 1 {
                    if let Some(code) = hex_digit(text.get_char(0)) {
                        return Ok(Some(code));
                    }
                }
                Err(Error::InvalidKey(name.clone()))
            },
        }
    }
}

} // verus!
