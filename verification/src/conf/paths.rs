//! Where the configuration files live, under a home directory.
use vstd::prelude::*;
use crate::chars::{chars_of, extend_chars, string_of};

verus! {

pub struct Paths {
    pub home: String,
}

impl Paths {
    /// `<home>/.config/<rel>`.
    pub fn config(&self, rel: &str) -> (p: String)
        ensures
            p@ == self.home@ + "/.config/"@ + rel@,
    {
        let mut v = chars_of(self.home.as_str());
        extend_chars(&mut v, &chars_of("/.config/"));
        extend_chars(&mut v, &chars_of(rel));
        string_of(&v)
    }

    /// `<home>/.cache/<rel>`.
    pub fn cache(&self, rel: &str) -> (p: String)
        ensures
            p@ == self.home@ + "/.cache/"@ + rel@,
    {
        let mut v = chars_of(self.home.as_str());
        extend_chars(&mut v, &chars_of("/.cache/"));
        extend_chars(&mut v, &chars_of(rel));
        string_of(&v)
    }

    /// The tool's own canonical state file.
    pub fn theme_toml(&self) -> (p: String)
        ensures
            p@ == self.home@ + "/.config/"@ + "lifeconf/theme.toml"@,
    {
        self.config("lifeconf/theme.toml")
    }
}

} // verus!
