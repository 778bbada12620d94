//! Raw pattern records, one ordered list per family, as the pattern-file
//! loader hands them to the parser: a regular-expression source string plus
//! optional output-field templates, and, for device records, optional
//! override sub-rules.
use vstd::prelude::*;

use crate::template::opt_view;

verus! {

/// Which device field an override sub-rule refines.
#[derive(Clone, Copy, Debug, PartialEq, Eq, Structural)]
pub enum OverrideTarget {
    Family,
    Brand,
    Model,
}

/// What text an override sub-rule's pattern is evaluated against: the text
/// already extracted for its target field, or the original input string.
#[derive(Clone, Copy, Debug, PartialEq, Eq, Structural)]
pub enum OverrideScope {
    Extracted,
    Input,
}

/// One device override sub-rule: a secondary pattern applied after the
/// primary device match to refine one extracted field.
#[derive(Clone, Debug)]
pub struct DeviceOverrideRule {
    pub target: OverrideTarget,
    pub scope: OverrideScope,
    pub regex: String,
    pub replacement: String,
}

/// One raw device pattern record.
#[derive(Clone, Debug)]
pub struct DeviceParserEntry {
    pub regex: String,
    pub device_replacement: Option<String>,
    pub brand_replacement: Option<String>,
    pub model_replacement: Option<String>,
    pub overrides: Vec<DeviceOverrideRule>,
}

/// One raw operating-system pattern record.
#[derive(Clone, Debug)]
pub struct OSParserEntry {
    pub regex: String,
    pub os_replacement: Option<String>,
    pub os_v1_replacement: Option<String>,
    pub os_v2_replacement: Option<String>,
    pub os_v3_replacement: Option<String>,
    pub os_v4_replacement: Option<String>,
}

/// One raw user-agent pattern record.
#[derive(Clone, Debug)]
pub struct UserAgentParserEntry {
    pub regex: String,
    pub family_replacement: Option<String>,
    pub v1_replacement: Option<String>,
    pub v2_replacement: Option<String>,
    pub v3_replacement: Option<String>,
}

/// The three ordered pattern lists that construction consumes. Order is
/// significant: it encodes precedence within each family.
#[derive(Clone, Debug)]
pub struct RegexFile {
    pub device_parsers: Vec<DeviceParserEntry>,
    pub os_parsers: Vec<OSParserEntry>,
    pub user_agent_parsers: Vec<UserAgentParserEntry>,
}

/// The abstract value of an override sub-rule; also the abstract value of
/// its compiled form, which keeps the same pattern text and templates.
#[verifier::ext_equal]
pub ghost struct OverrideV {
    pub target: OverrideTarget,
    pub scope: OverrideScope,
    pub source: Seq<char>,
    pub replacement: Seq<char>,
}

impl View for DeviceOverrideRule {
    type V = OverrideV;

    open spec fn view(&self) -> OverrideV {
        OverrideV {
            target: self.target,
            scope: self.scope,
            source: self.regex@,
            replacement: self.replacement@,
        }
    }
}

/// The abstract values of a list of override sub-rules, in order.
pub open spec fn rules_view(v: Seq<DeviceOverrideRule>) -> Seq<OverrideV> {
    Seq::new(v.len(), |i: int| v[i]@)
}

/// The abstract value of a raw device record.
#[verifier::ext_equal]
pub ghost struct DeviceEntryV {
    pub regex: Seq<char>,
    pub device_replacement: Option<Seq<char>>,
    pub brand_replacement: Option<Seq<char>>,
    pub model_replacement: Option<Seq<char>>,
    pub overrides: Seq<OverrideV>,
}

impl View for DeviceParserEntry {
    type V = DeviceEntryV;

    open spec fn view(&self) -> DeviceEntryV {
        DeviceEntryV {
            regex: self.regex@,
            device_replacement: opt_view(self.device_replacement),
            brand_replacement: opt_view(self.brand_replacement),
            model_replacement: opt_view(self.model_replacement),
            overrides: rules_view(self.overrides@),
        }
    }
}

/// The abstract value of a raw operating-system record.
#[verifier::ext_equal]
pub ghost struct OSEntryV {
    pub regex: Seq<char>,
    pub os_replacement: Option<Seq<char>>,
    pub os_v1_replacement: Option<Seq<char>>,
    pub os_v2_replacement: Option<Seq<char>>,
    pub os_v3_replacement: Option<Seq<char>>,
    pub os_v4_replacement: Option<Seq<char>>,
}

impl View for OSParserEntry {
    type V = OSEntryV;

    open spec fn view(&self) -> OSEntryV {
        OSEntryV {
            regex: self.regex@,
            os_replacement: opt_view(self.os_replacement),
            os_v1_replacement: opt_view(self.os_v1_replacement),
            os_v2_replacement: opt_view(self.os_v2_replacement),
            os_v3_replacement: opt_view(self.os_v3_replacement),
            os_v4_replacement: opt_view(self.os_v4_replacement),
        }
    }
}

/// The abstract value of a raw user-agent record.
#[verifier::ext_equal]
pub ghost struct UserAgentEntryV {
    pub regex: Seq<char>,
    pub family_replacement: Option<Seq<char>>,
    pub v1_replacement: Option<Seq<char>>,
    pub v2_replacement: Option<Seq<char>>,
    pub v3_replacement: Option<Seq<char>>,
}

impl View for UserAgentParserEntry {
    type V = UserAgentEntryV;

    open spec fn view(&self) -> UserAgentEntryV {
        UserAgentEntryV {
            regex: self.regex@,
            family_replacement: opt_view(self.family_replacement),
            v1_replacement: opt_view(self.v1_replacement),
            v2_replacement: opt_view(self.v2_replacement),
            v3_replacement: opt_view(self.v3_replacement),
        }
    }
}

/// The abstract values of a list of raw device records, in order.
pub open spec fn device_entries_view(v: Seq<DeviceParserEntry>) -> Seq<DeviceEntryV> {
    Seq::new(v.len(), |i: int| v[i]@)
}

/// The abstract values of a list of raw operating-system records, in order.
pub open spec fn os_entries_view(v: Seq<OSParserEntry>) -> Seq<OSEntryV> {
    Seq::new(v.len(), |i: int| v[i]@)
}

/// The abstract values of a list of raw user-agent records, in order.
pub open spec fn user_agent_entries_view(v: Seq<UserAgentParserEntry>) -> Seq<UserAgentEntryV> {
    Seq::new(v.len(), |i: int| v[i]@)
}

} // verus!
