//! The top-level parser: one family evaluator per family, built atomically
//! from the three raw pattern lists, and the parsing entry points that
//! delegate to them.
use vstd::prelude::*;

use crate::client::Client;
use crate::device;
use crate::device::Device;
use crate::engine::captures_of;
use crate::eval::lemma_first_some_at;
use crate::file::device_entries_view;
use crate::file::os_entries_view;
use crate::file::user_agent_entries_view;
use crate::file::RegexFile;
use crate::os;
use crate::os::OS;
use crate::user_agent;
use crate::user_agent::UserAgent;

verus! {

/// A construction-time failure: some pattern in the named family's list
/// failed to compile. The payload is the first offending pattern's text.
#[derive(Clone, Debug, PartialEq, Eq)]
pub enum Error {
    Device(String),
    OS(String),
    UserAgent(String),
}

/// Handles the actual parsing of a user agent string by delegating to the
/// matcher list of each family. Immutable after construction.
pub struct UserAgentParser {
    device_matchers: Vec<device::Matcher>,
    os_matchers: Vec<os::Matcher>,
    user_agent_matchers: Vec<user_agent::Matcher>,
}

impl UserAgentParser {
    /// The abstract values of the device matcher list, in order.
    pub closed spec fn spec_device_matchers(&self) -> Seq<device::MatcherV> {
        device::matchers_view(self.device_matchers@)
    }

    /// The abstract values of the operating-system matcher list, in order.
    pub closed spec fn spec_os_matchers(&self) -> Seq<os::MatcherV> {
        os::matchers_view(self.os_matchers@)
    }

    /// The abstract values of the user-agent matcher list, in order.
    pub closed spec fn spec_user_agent_matchers(&self) -> Seq<user_agent::MatcherV> {
        user_agent::matchers_view(self.user_agent_matchers@)
    }

    /// Assembles a parser from already-compiled matcher lists, keeping each
    /// list's order exactly.
    pub fn from_matchers(
        device_matchers: Vec<device::Matcher>,
        os_matchers: Vec<os::Matcher>,
        user_agent_matchers: Vec<user_agent::Matcher>,
    ) -> (r: UserAgentParser)
        ensures
            r.spec_device_matchers() == device::matchers_view(device_matchers@),
            r.spec_os_matchers() == os::matchers_view(os_matchers@),
            r.spec_user_agent_matchers() == user_agent::matchers_view(user_agent_matchers@),
    {
        UserAgentParser { device_matchers, os_matchers, user_agent_matchers }
    }

    /// Compiles all three pattern lists into a parser. Construction is
    /// atomic: if any single pattern in any family fails to compile, the
    /// whole construction fails with an error naming that family and the
    /// first offending pattern — device patterns are compiled first, then
    /// operating-system patterns, then user-agent patterns.
    #[verifier::loop_isolation(false)]
    pub fn try_from(regex_file: RegexFile) -> (r: Result<UserAgentParser, Error>)
        ensures
            (match r {
                Ok(p) => {
                    &&& device::spec_compile_entries(
                        device_entries_view(regex_file.device_parsers@),
                    ) == Ok::<Seq<device::MatcherV>, Seq<char>>(p.spec_device_matchers())
                    &&& os::spec_compile_entries(os_entries_view(regex_file.os_parsers@))
                        == Ok::<Seq<os::MatcherV>, Seq<char>>(p.spec_os_matchers())
                    &&& user_agent::spec_compile_entries(
                        user_agent_entries_view(regex_file.user_agent_parsers@),
                    ) == Ok::<Seq<user_agent::MatcherV>, Seq<char>>(p.spec_user_agent_matchers())
                },
                Err(Error::Device(pat)) => device::spec_compile_entries(
                    device_entries_view(regex_file.device_parsers@),
                ) == Err::<Seq<device::MatcherV>, Seq<char>>(pat@),
                Err(Error::OS(pat)) => {
                    &&& device::spec_compile_entries(
                        device_entries_view(regex_file.device_parsers@),
                    ) is Ok
                    &&& os::spec_compile_entries(os_entries_view(regex_file.os_parsers@))
                        == Err::<Seq<os::MatcherV>, Seq<char>>(pat@)
                },
                Err(Error::UserAgent(pat)) => {
                    &&& device::spec_compile_entries(
                        device_entries_view(regex_file.device_parsers@),
                    ) is Ok
                    &&& os::spec_compile_entries(os_entries_view(regex_file.os_parsers@)) is Ok
                    &&& user_agent::spec_compile_entries(
                        user_agent_entries_view(regex_file.user_agent_parsers@),
                    ) == Err::<Seq<user_agent::MatcherV>, Seq<char>>(pat@)
                },
            }),
    {
        let ghost dv = device_entries_view(regex_file.device_parsers@);
        let ghost ov = os_entries_view(regex_file.os_parsers@);
        let ghost uv = user_agent_entries_view(regex_file.user_agent_parsers@);
        let RegexFile { device_parsers, os_parsers, user_agent_parsers } = regex_file;

        let mut rest_d = device_parsers;
        let mut device_matchers: Vec<device::Matcher> = Vec::new();
        proof {
            assert(device_entries_view(rest_d@) =~= dv);
            assert(device::matchers_view(device_matchers@) =~= Seq::<device::MatcherV>::empty());
            if device::spec_compile_entries(dv) is Ok {
                assert(device::matchers_view(device_matchers@) + device::spec_compile_entries(
                    dv,
                )->Ok_0 =~= device::spec_compile_entries(dv)->Ok_0);
            }
        }
        while rest_d.len() > 0
            invariant
                (match device::spec_compile_entries(device_entries_view(rest_d@)) {
                    Ok(t) => device::spec_compile_entries(dv) == Ok::<
                        Seq<device::MatcherV>,
                        Seq<char>,
                    >(device::matchers_view(device_matchers@) + t),
                    Err(p) => device::spec_compile_entries(dv) == Err::<
                        Seq<device::MatcherV>,
                        Seq<char>,
                    >(p),
                }),
            decreases rest_d.len(),
        {
            let ghost es = device_entries_view(rest_d@);
            let entry = rest_d.remove(0);
            proof {
                assert(es[0] == entry@);
                assert(device_entries_view(rest_d@) =~= es.skip(1));
            }
            match device::Matcher::try_from(entry) {
                Ok(m) => {
                    proof {
                        assert(device::matchers_view(device_matchers@.push(m)) =~= device::matchers_view(
                            device_matchers@,
                        ) + seq![m@]);
                        if device::spec_compile_entries(es.skip(1)) is Ok {
                            let t = device::spec_compile_entries(es.skip(1))->Ok_0;
                            assert((device::matchers_view(device_matchers@) + seq![m@]) + t
                                =~= device::matchers_view(device_matchers@) + (seq![m@] + t));
                        }
                    }
                    device_matchers.push(m);
                },
                Err(p) => {
                    return Err(Error::Device(p));
                },
            }
        }
        proof {
            assert(device_entries_view(rest_d@) =~= Seq::<crate::file::DeviceEntryV>::empty());
            assert(device::matchers_view(device_matchers@) + Seq::<device::MatcherV>::empty()
                =~= device::matchers_view(device_matchers@));
        }

        let mut rest_o = os_parsers;
        let mut os_matchers: Vec<os::Matcher> = Vec::new();
        proof {
            assert(os_entries_view(rest_o@) =~= ov);
            assert(os::matchers_view(os_matchers@) =~= Seq::<os::MatcherV>::empty());
            if os::spec_compile_entries(ov) is Ok {
                assert(os::matchers_view(os_matchers@) + os::spec_compile_entries(ov)->Ok_0
                    =~= os::spec_compile_entries(ov)->Ok_0);
            }
        }
        while rest_o.len() > 0
            invariant
                device::spec_compile_entries(dv) is Ok,
                (match os::spec_compile_entries(os_entries_view(rest_o@)) {
                    Ok(t) => os::spec_compile_entries(ov) == Ok::<Seq<os::MatcherV>, Seq<char>>(
                        os::matchers_view(os_matchers@) + t,
                    ),
                    Err(p) => os::spec_compile_entries(ov) == Err::<Seq<os::MatcherV>, Seq<char>>(
                        p,
                    ),
                }),
            decreases rest_o.len(),
        {
            let ghost es = os_entries_view(rest_o@);
            let entry = rest_o.remove(0);
            proof {
                assert(es[0] == entry@);
                assert(os_entries_view(rest_o@) =~= es.skip(1));
            }
            match os::Matcher::try_from(entry) {
                Ok(m) => {
                    proof {
                        assert(os::matchers_view(os_matchers@.push(m)) =~= os::matchers_view(
                            os_matchers@,
                        ) + seq![m@]);
                        if os::spec_compile_entries(es.skip(1)) is Ok {
                            let t = os::spec_compile_entries(es.skip(1))->Ok_0;
                            assert((os::matchers_view(os_matchers@) + seq![m@]) + t
                                =~= os::matchers_view(os_matchers@) + (seq![m@] + t));
                        }
                    }
                    os_matchers.push(m);
                },
                Err(p) => {
                    return Err(Error::OS(p));
                },
            }
        }
        proof {
            assert(os_entries_view(rest_o@) =~= Seq::<crate::file::OSEntryV>::empty());
            assert(os::matchers_view(os_matchers@) + Seq::<os::MatcherV>::empty()
                =~= os::matchers_view(os_matchers@));
        }

        let mut rest_u = user_agent_parsers;
        let mut user_agent_matchers: Vec<user_agent::Matcher> = Vec::new();
        proof {
            assert(user_agent_entries_view(rest_u@) =~= uv);
            assert(user_agent::matchers_view(user_agent_matchers@) =~= Seq::<
                user_agent::MatcherV,
            >::empty());
            if user_agent::spec_compile_entries(uv) is Ok {
                assert(user_agent::matchers_view(user_agent_matchers@)
                    + user_agent::spec_compile_entries(uv)->Ok_0
                    =~= user_agent::spec_compile_entries(uv)->Ok_0);
            }
        }
        while rest_u.len() > 0
            invariant
                device::spec_compile_entries(dv) is Ok,
                os::spec_compile_entries(ov) is Ok,
                (match user_agent::spec_compile_entries(user_agent_entries_view(rest_u@)) {
                    Ok(t) => user_agent::spec_compile_entries(uv) == Ok::<
                        Seq<user_agent::MatcherV>,
                        Seq<char>,
                    >(user_agent::matchers_view(user_agent_matchers@) + t),
                    Err(p) => user_agent::spec_compile_entries(uv) == Err::<
                        Seq<user_agent::MatcherV>,
                        Seq<char>,
                    >(p),
                }),
            decreases rest_u.len(),
        {
            let ghost es = user_agent_entries_view(rest_u@);
            let entry = rest_u.remove(0);
            proof {
                assert(es[0] == entry@);
                assert(user_agent_entries_view(rest_u@) =~= es.skip(1));
            }
            match user_agent::Matcher::try_from(entry) {
                Ok(m) => {
                    proof {
                        assert(user_agent::matchers_view(user_agent_matchers@.push(m))
                            =~= user_agent::matchers_view(user_agent_matchers@) + seq![m@]);
                        if user_agent::spec_compile_entries(es.skip(1)) is Ok {
                            let t = user_agent::spec_compile_entries(es.skip(1))->Ok_0;
                            assert((user_agent::matchers_view(user_agent_matchers@) + seq![m@]) + t
                                =~= user_agent::matchers_view(user_agent_matchers@) + (seq![m@]
                                + t));
                        }
                    }
                    user_agent_matchers.push(m);
                },
                Err(p) => {
                    return Err(Error::UserAgent(p));
                },
            }
        }
        proof {
            assert(user_agent_entries_view(rest_u@) =~= Seq::<
                crate::file::UserAgentEntryV,
            >::empty());
            assert(user_agent::matchers_view(user_agent_matchers@) + Seq::<
                user_agent::MatcherV,
            >::empty() =~= user_agent::matchers_view(user_agent_matchers@));
        }

        Ok(UserAgentParser { device_matchers, os_matchers, user_agent_matchers })
    }

    /// Returns the full `Client` info when given a user agent string: each
    /// family is evaluated independently and the three results combined.
    pub fn parse(&self, user_agent: &str) -> (r: Client)
        ensures
            r@.device == device::spec_evaluate(self.spec_device_matchers(), user_agent@),
            r@.os == os::spec_evaluate(self.spec_os_matchers(), user_agent@),
            r@.user_agent == user_agent::spec_evaluate(
                self.spec_user_agent_matchers(),
                user_agent@,
            ),
    {
        let device = self.parse_device(user_agent);
        let os = self.parse_os(user_agent);
        let ua = self.parse_user_agent(user_agent);
        Client { device, os, user_agent: ua }
    }

    /// Returns just the `Device` info when given a user agent string.
    pub fn parse_device(&self, user_agent: &str) -> (r: Device)
        ensures
            r@ == device::spec_evaluate(self.spec_device_matchers(), user_agent@),
    {
        device::evaluate(&self.device_matchers, user_agent)
    }

    /// Returns just the `OS` info when given a user agent string.
    pub fn parse_os(&self, user_agent: &str) -> (r: OS)
        ensures
            r@ == os::spec_evaluate(self.spec_os_matchers(), user_agent@),
    {
        os::evaluate(&self.os_matchers, user_agent)
    }

    /// Returns just the `UserAgent` info when given a user agent string.
    pub fn parse_user_agent(&self, user_agent: &str) -> (r: UserAgent)
        ensures
            r@ == user_agent::spec_evaluate(self.spec_user_agent_matchers(), user_agent@),
    {
        user_agent::evaluate(&self.user_agent_matchers, user_agent)
    }
}

/// The minimal-pattern-set scenario, settled modulo what the regex engine
/// finds: a parser holding one user-agent matcher and one operating-system
/// matcher, neither with templates, and no device matchers. When the
/// engine's captures on the input are a browser name with three version
/// components for the first and a system name with two for the second,
/// all non-empty, the combined result is exactly that browser with those
/// versions, that system with its major and minor versions and nothing
/// more, and a device with every field absent.
pub proof fn lemma_minimal_pattern_set_scenario(
    p: &UserAgentParser,
    input: Seq<char>,
    whole_ua: Seq<char>,
    browser: Seq<char>,
    v1: Seq<char>,
    v2: Seq<char>,
    v3: Seq<char>,
    whole_os: Seq<char>,
    system: Seq<char>,
    s1: Seq<char>,
    s2: Seq<char>,
)
    requires
        p.spec_device_matchers().len() == 0,
        p.spec_os_matchers().len() == 1,
        p.spec_user_agent_matchers().len() == 1,
        ({
            let m = p.spec_user_agent_matchers()[0];
            &&& m.family_replacement is None
            &&& m.v1_replacement is None
            &&& m.v2_replacement is None
            &&& m.v3_replacement is None
            &&& captures_of(m.source, input) == Some(
                seq![Some(whole_ua), Some(browser), Some(v1), Some(v2), Some(v3)],
            )
        }),
        ({
            let m = p.spec_os_matchers()[0];
            &&& m.os_replacement is None
            &&& m.os_v1_replacement is None
            &&& m.os_v2_replacement is None
            &&& m.os_v3_replacement is None
            &&& m.os_v4_replacement is None
            &&& captures_of(m.source, input) == Some(
                seq![Some(whole_os), Some(system), Some(s1), Some(s2)],
            )
        }),
        browser.len() > 0,
        v1.len() > 0,
        v2.len() > 0,
        v3.len() > 0,
        system.len() > 0,
        s1.len() > 0,
        s2.len() > 0,
    ensures
        user_agent::spec_evaluate(p.spec_user_agent_matchers(), input) == (user_agent::UserAgentV {
            family: Some(browser),
            major: Some(v1),
            minor: Some(v2),
            patch: Some(v3),
        }),
        os::spec_evaluate(p.spec_os_matchers(), input) == (os::OSV {
            family: Some(system),
            major: Some(s1),
            minor: Some(s2),
            patch: None,
            patch_minor: None,
        }),
        device::spec_evaluate(p.spec_device_matchers(), input) == device::DeviceV::default_v(),
{
    let um = p.spec_user_agent_matchers()[0];
    let ug: Seq<Option<Seq<char>>> = seq![
        Some(whole_ua),
        Some(browser),
        Some(v1),
        Some(v2),
        Some(v3),
    ];
    assert(ug[1] == Some(browser) && ug[2] == Some(v1) && ug[3] == Some(v2) && ug[4] == Some(v3));
    assert(user_agent::spec_try_parse(um, input) == Some(
        user_agent::UserAgentV {
            family: Some(browser),
            major: Some(v1),
            minor: Some(v2),
            patch: Some(v3),
        },
    ));
    let urs = user_agent::results_of(p.spec_user_agent_matchers(), input);
    lemma_first_some_at(urs, 0);

    let om = p.spec_os_matchers()[0];
    let og: Seq<Option<Seq<char>>> = seq![Some(whole_os), Some(system), Some(s1), Some(s2)];
    assert(og[1] == Some(system) && og[2] == Some(s1) && og[3] == Some(s2));
    assert(og.len() == 4);
    assert(os::spec_try_parse(om, input) == Some(
        os::OSV {
            family: Some(system),
            major: Some(s1),
            minor: Some(s2),
            patch: None,
            patch_minor: None,
        },
    ));
    let ors = os::results_of(p.spec_os_matchers(), input);
    lemma_first_some_at(ors, 0);

    device::lemma_no_match_default(p.spec_device_matchers(), input);
}

} // verus!
