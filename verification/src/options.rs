//! Caller-supplied generation options: the root struct name, the constant
//! name, whether to emit the constant, and the derivation annotations placed
//! on every generated record.

use vstd::prelude::*;
use vstd::string::*;
use crate::error::OptionsError;
use crate::text;
use crate::validation;

verus! {

/// Mathematical form of the options, used by the generation contracts.
pub struct OptionsModel {
    pub struct_name: Seq<char>,
    pub const_name: Option<Seq<char>>,
    pub generate_const: bool,
    pub derived_traits: Seq<Seq<char>>,
}

#[derive(Debug)]
pub struct Options {
    pub struct_name: String,
    pub const_name: Option<String>,
    pub generate_const: bool,
    pub derived_traits: Vec<String>,
}

impl Options {
    pub open spec fn model(self) -> OptionsModel {
        OptionsModel {
            struct_name: self.struct_name@,
            const_name: match self.const_name {
                Option::None => Option::None,
                Option::Some(c) => Option::Some(c@),
            },
            generate_const: self.generate_const,
            derived_traits: Seq::new(
                self.derived_traits@.len(),
                |i: int| self.derived_traits@[i]@,
            ),
        }
    }

    /// The options are accepted exactly when the struct name is a legal
    /// identifier; otherwise the offending name is reported.
    pub fn validate(&self) -> (r: Result<(), OptionsError>)
        ensures
            r is Ok <==> validation::is_valid_ident(self.struct_name@),
            r matches Err(OptionsError::InvalidStructName(n)) ==> n@ == self.struct_name@,
    {
        if !validation::valid_identifier(self.struct_name.as_str()) {
            return Err(OptionsError::InvalidStructName(self.struct_name.clone()));
        }
        Ok(())
    }

    /// The name the emitted constant will carry: the explicit constant name
    /// when one was supplied, else the upper-cased struct name.
    pub fn real_const_name(&self) -> (r: String)
        ensures
            r@ == self.model().spec_const_name(),
    {
        match &self.const_name {
            Option::Some(c) => c.clone(),
            Option::None => text::ascii_uppercase(self.struct_name.as_str()),
        }
    }
}

impl OptionsModel {
    pub open spec fn spec_const_name(self) -> Seq<char> {
        match self.const_name {
            Option::Some(c) => c,
            Option::None => text::upper_seq(self.struct_name),
        }
    }
}

impl Default for Options {
    /// The defaults: root name `Config`, no explicit constant name, the
    /// constant emitted, and a fixed list of four derivation annotations.
    fn default() -> (r: Self)
        ensures
            r.struct_name@ == "Config"@,
            r.const_name is None,
            r.generate_const == true,
            r.derived_traits@.len() == 4,
            r.derived_traits@[0]@ == "Debug"@,
            r.derived_traits@[1]@ == "Clone"@,
            r.derived_traits@[2]@ == "Serialize"@,
            r.derived_traits@[3]@ == "Deserialize"@,
    {
        let mut traits: Vec<String> = Vec::new();
        traits.push(String::from_str("Debug"));
        traits.push(String::from_str("Clone"));
        traits.push(String::from_str("Serialize"));
        traits.push(String::from_str("Deserialize"));
        Options {
            struct_name: String::from_str("Config"),
            const_name: None,
            generate_const: true,
            derived_traits: traits,
        }
    }
}

} // verus!
