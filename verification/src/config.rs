//! The runtime configuration record: listening host, port, and the directory
//! the static pages are read from.

use vstd::prelude::*;

use crate::text::is_digit_char;
use crate::text::lemma_dec_digits_shape;
use crate::text::lemma_parse_of_dec;
use crate::text::lemma_split_lines_concat;
use crate::text::parse_u16;
use crate::text::spec_dec_digits;
use crate::text::spec_parse_u16;
use crate::text::spec_split_lines;
use crate::text::split_lines;
use crate::text::str_starts_with;
use crate::text::strs_view;
use crate::text::u64_to_decimal;

verus! {

use vstd::string::*;

/// Mathematical view of a [`Config`]: the two strings as character
/// sequences, the port as is.
pub struct ConfigV {
    pub host: Seq<char>,
    pub port: u16,
    pub static_dir: Seq<char>,
}

/// Runtime configuration: where to listen and where the static pages live.
pub struct Config {
    pub host: String,
    pub port: u16,
    pub static_dir: String,
}

impl View for Config {
    type V = ConfigV;

    open spec fn view(&self) -> ConfigV {
        ConfigV { host: self.host@, port: self.port, static_dir: self.static_dir@ }
    }
}

/// The configuration used when no settings file is readable or its
/// structure is invalid.
pub open spec fn spec_default_config() -> ConfigV {
    ConfigV { host: "127.0.0.1"@, port: 7878, static_dir: "src/html"@ }
}

impl Default for Config {
    fn default() -> (r: Config)
        ensures
            r@ == spec_default_config(),
    {
        Config {
            host: "127.0.0.1".to_owned(),
            port: 7878,
            static_dir: "src/html".to_owned(),
        }
    }
}

impl ConfigV {
    /// A configuration is renderable when neither string field holds a
    /// newline, the one character the settings file cannot carry inside a
    /// value.
    pub open spec fn wf(self) -> bool {
        &&& forall|k: int| 0 <= k < self.host.len() ==> self.host[k] != '\n'
        &&& forall|k: int| 0 <= k < self.static_dir.len() ==> self.static_dir[k] != '\n'
    }
}

/// The fields seen so far while reading a settings file.
pub struct PartialSettings {
    pub host: Option<Seq<char>>,
    pub port: Option<u16>,
    pub static_dir: Option<Seq<char>>,
}

pub open spec fn empty_partial() -> PartialSettings {
    PartialSettings { host: None, port: None, static_dir: None }
}

/// One line of the settings file applied to the fields read so far: empty
/// lines say nothing; a `host: `, `port: ` or `static_dir: ` line fills its
/// field once, the rest of the line being the value (the port value must be
/// a decimal 16-bit number); any other line, or a repeated field, makes the
/// file invalid.
pub open spec fn spec_settings_step(acc: PartialSettings, line: Seq<char>) -> Option<
    PartialSettings,
> {
    if line.len() == 0 {
        Some(acc)
    } else if "host: "@.is_prefix_of(line) {
        if acc.host is Some {
            None
        } else {
            Some(
                PartialSettings {
                    host: Some(line.skip("host: "@.len() as int)),
                    port: acc.port,
                    static_dir: acc.static_dir,
                },
            )
        }
    } else if "port: "@.is_prefix_of(line) {
        if acc.port is Some {
            None
        } else {
            match spec_parse_u16(line.skip("port: "@.len() as int)) {
                Some(p) => Some(
                    PartialSettings { host: acc.host, port: Some(p), static_dir: acc.static_dir },
                ),
                None => None,
            }
        }
    } else if "static_dir: "@.is_prefix_of(line) {
        if acc.static_dir is Some {
            None
        } else {
            Some(
                PartialSettings {
                    host: acc.host,
                    port: acc.port,
                    static_dir: Some(line.skip("static_dir: "@.len() as int)),
                },
            )
        }
    } else {
        None
    }
}

pub open spec fn spec_settings_run(acc: PartialSettings, lines: Seq<Seq<char>>) -> Option<
    PartialSettings,
>
    decreases lines.len(),
{
    if lines.len() == 0 {
        Some(acc)
    } else {
        match spec_settings_step(acc, lines[0]) {
            None => None,
            Some(a) => spec_settings_run(a, lines.skip(1)),
        }
    }
}

/// What a settings file means: each of the three fields given exactly once,
/// in any order, one `key: value` line each; anything else is invalid.
pub open spec fn spec_parse_settings(text: Seq<char>) -> Option<ConfigV> {
    match spec_settings_run(empty_partial(), spec_split_lines(text)) {
        Some(p) => match (p.host, p.port, p.static_dir) {
            (Some(h), Some(po), Some(d)) => Some(ConfigV { host: h, port: po, static_dir: d }),
            _ => None,
        },
        None => None,
    }
}

/// The configuration a settings file text loads to: the parsed fields, or
/// the default when the text is absent or invalid.
pub open spec fn spec_load_config(text: Option<Seq<char>>) -> ConfigV {
    match text {
        Some(t) => match spec_parse_settings(t) {
            Some(c) => c,
            None => spec_default_config(),
        },
        None => spec_default_config(),
    }
}

/// The settings file text for a configuration: one `key: value` line per
/// field, ending in a newline.
pub open spec fn spec_render_settings(c: ConfigV) -> Seq<char> {
    "host: "@ + c.host + seq!['\n'] + "port: "@ + spec_dec_digits(c.port as nat) + seq!['\n']
        + "static_dir: "@ + c.static_dir + seq!['\n']
}

/// The view of an optional string.
pub open spec fn opt_str_view(o: Option<String>) -> Option<Seq<char>> {
    match o {
        Some(s) => Some(s@),
        None => None,
    }
}

/// Reads a settings file text, as [`spec_parse_settings`] says.
pub fn parse_settings(text: &str) -> (r: Option<Config>)
    ensures
        match r {
            Some(c) => spec_parse_settings(text@) == Some(c@),
            None => spec_parse_settings(text@) is None,
        },
{
    proof {
        reveal_strlit("host: ");
        reveal_strlit("port: ");
        reveal_strlit("static_dir: ");
    }
    let lines = split_lines(text);
    let ghost ls = spec_split_lines(text@);
    let mut host: Option<String> = None;
    let mut port: Option<u16> = None;
    let mut dir: Option<String> = None;
    let mut i: usize = 0;
    proof {
        assert(ls.skip(0) =~= ls);
    }
    while i < lines.len()
        invariant
            i <= lines@.len(),
            strs_view(lines@) == ls,
            ls == spec_split_lines(text@),
            spec_settings_run(empty_partial(), ls) == spec_settings_run(
                PartialSettings {
                    host: opt_str_view(host),
                    port: port,
                    static_dir: opt_str_view(dir),
                },
                ls.skip(i as int),
            ),
        decreases lines@.len() - i,
    {
        proof {
            reveal_strlit("host: ");
            reveal_strlit("port: ");
            reveal_strlit("static_dir: ");
        }
        let ghost acc = PartialSettings {
            host: opt_str_view(host),
            port: port,
            static_dir: opt_str_view(dir),
        };
        let line = &lines[i];
        let ghost lv = ls[i as int];
        proof {
            assert(lv == line@);
            assert(ls.skip(i as int)[0] == lv);
            assert(ls.skip(i as int).skip(1) =~= ls.skip(i + 1));
        }
        let n = line.unicode_len();
        if n == 0 {
            proof {
                assert(spec_settings_step(acc, lv) == Some(acc));
            }
        } else if str_starts_with(line.as_str(), "host: ") {
            if host.is_some() {
                proof {
                    assert(spec_settings_step(acc, lv) is None);
                    assert(spec_settings_run(acc, ls.skip(i as int)) is None);
                }
                return None;
            }
            let v = line.as_str().substring_char(6, n).to_owned();
            proof {
                assert(v@ =~= lv.skip("host: "@.len() as int));
            }
            host = Some(v);
        } else if str_starts_with(line.as_str(), "port: ") {
            if port.is_some() {
                proof {
                    assert(spec_settings_step(acc, lv) is None);
                    assert(spec_settings_run(acc, ls.skip(i as int)) is None);
                }
                return None;
            }
            let v = line.as_str().substring_char(6, n);
            proof {
                assert(v@ =~= lv.skip("port: "@.len() as int));
            }
            match parse_u16(v) {
                Some(p) => {
                    port = Some(p);
                },
                None => {
                    proof {
                        assert(spec_settings_step(acc, lv) is None);
                        assert(spec_settings_run(acc, ls.skip(i as int)) is None);
                    }
                    return None;
                },
            }
        } else if str_starts_with(line.as_str(), "static_dir: ") {
            if dir.is_some() {
                proof {
                    assert(spec_settings_step(acc, lv) is None);
                    assert(spec_settings_run(acc, ls.skip(i as int)) is None);
                }
                return None;
            }
            let v = line.as_str().substring_char(12, n).to_owned();
            proof {
                assert(v@ =~= lv.skip("static_dir: "@.len() as int));
            }
            dir = Some(v);
        } else {
            proof {
                assert(spec_settings_step(acc, lv) is None);
            }
            return None;
        }
        i += 1;
    }
    proof {
        assert(ls.skip(i as int) =~= Seq::<Seq<char>>::empty());
    }
    match (host, port, dir) {
        (Some(h), Some(p), Some(d)) => Some(Config { host: h, port: p, static_dir: d }),
        _ => None,
    }
}

/// Loads a configuration from the settings file text, when there is one:
/// an unreadable or invalid settings file yields the default configuration.
pub fn load_config(text: Option<&str>) -> (r: Config)
    ensures
        r@ == spec_load_config(
            match text {
                Some(t) => Some(t@),
                None => None,
            },
        ),
{
    match text {
        Some(t) => match parse_settings(t) {
            Some(c) => c,
            None => Config::default(),
        },
        None => Config::default(),
    }
}

/// Writes the settings file text for a configuration, as
/// [`spec_render_settings`] says.
pub fn render_settings(c: &Config) -> (r: String)
    ensures
        r@ == spec_render_settings(c@),
{
    let mut r = String::new();
    r.append("host: ");
    r.append(c.host.as_str());
    r.append("\n");
    r.append("port: ");
    let digits = u64_to_decimal(c.port as u64);
    r.append(digits.as_str());
    r.append("\n");
    r.append("static_dir: ");
    r.append(c.static_dir.as_str());
    r.append("\n");
    proof {
        reveal_strlit("\n");
        assert("\n"@ =~= seq!['\n']);
        assert(r@ =~= spec_render_settings(c@));
    }
    r
}

/// A settings text with invalid structure loads to exactly the default
/// configuration.
pub proof fn lemma_invalid_settings_load_default(t: Seq<char>)
    requires
        spec_parse_settings(t) is None,
    ensures
        spec_load_config(Some(t)) == spec_default_config(),
{
}

/// Rendering a renderable configuration and reading the text back yields
/// the same configuration.
pub proof fn lemma_settings_round_trip(c: ConfigV)
    requires
        c.wf(),
    ensures
        spec_parse_settings(spec_render_settings(c)) == Some(c),
{
    reveal_strlit("host: ");
    reveal_strlit("port: ");
    reveal_strlit("static_dir: ");
    let l1 = "host: "@ + c.host;
    let l2 = "port: "@ + spec_dec_digits(c.port as nat);
    let l3 = "static_dir: "@ + c.static_dir;
    lemma_dec_digits_shape(c.port as nat);
    assert forall|k: int| 0 <= k < l1.len() implies l1[k] != '\n' by {
        if k >= 6 {
            assert(l1[k] == c.host[k - 6]);
        }
    }
    assert forall|k: int| 0 <= k < l2.len() implies l2[k] != '\n' by {
        if k >= 6 {
            assert(l2[k] == spec_dec_digits(c.port as nat)[k - 6]);
            assert(is_digit_char(l2[k]));
        }
    }
    assert forall|k: int| 0 <= k < l3.len() implies l3[k] != '\n' by {
        if k >= 12 {
            assert(l3[k] == c.static_dir[k - 12]);
        }
    }
    let rest2 = l3 + seq!['\n'] + Seq::<char>::empty();
    let rest1 = l2 + seq!['\n'] + rest2;
    let text = l1 + seq!['\n'] + rest1;
    assert(spec_render_settings(c) =~= text);
    lemma_split_lines_concat(l1, rest1);
    lemma_split_lines_concat(l2, rest2);
    lemma_split_lines_concat(l3, Seq::<char>::empty());
    assert(spec_split_lines(Seq::<char>::empty()) == seq![Seq::<char>::empty()]);
    let lines = spec_split_lines(text);
    assert(lines =~= seq![l1, l2, l3, Seq::<char>::empty()]);

    // run the four lines through the reader, one step at a time
    let acc0 = empty_partial();
    assert("host: "@.is_prefix_of(l1)) by {
        assert(l1.subrange(0, 6) =~= "host: "@);
    }
    let acc1 = PartialSettings { host: Some(l1.skip(6)), port: None, static_dir: None };
    assert(spec_settings_step(acc0, l1) == Some(acc1));
    assert(l1.skip(6) =~= c.host);

    assert(l2[0] == 'p');
    assert(!"host: "@.is_prefix_of(l2)) by {
        if "host: "@.is_prefix_of(l2) {
            assert(l2.subrange(0, 6)[0] == l2[0]);
        }
    }
    assert("port: "@.is_prefix_of(l2)) by {
        assert(l2.subrange(0, 6) =~= "port: "@);
    }
    assert(l2.skip(6) =~= spec_dec_digits(c.port as nat));
    lemma_parse_of_dec(c.port as nat);
    assert(spec_parse_u16(l2.skip(6)) == Some(c.port));
    let acc2 = PartialSettings { host: acc1.host, port: Some(c.port), static_dir: None };
    assert(spec_settings_step(acc1, l2) == Some(acc2));

    assert(l3[0] == 's');
    assert(!"host: "@.is_prefix_of(l3)) by {
        if "host: "@.is_prefix_of(l3) {
            assert(l3.subrange(0, 6)[0] == l3[0]);
        }
    }
    assert(!"port: "@.is_prefix_of(l3)) by {
        if "port: "@.is_prefix_of(l3) {
            assert(l3.subrange(0, 6)[0] == l3[0]);
        }
    }
    assert("static_dir: "@.is_prefix_of(l3)) by {
        assert(l3.subrange(0, 12) =~= "static_dir: "@);
    }
    assert(l3.skip(12) =~= c.static_dir);
    let acc3 = PartialSettings { host: acc2.host, port: acc2.port, static_dir: Some(l3.skip(12)) };
    assert(spec_settings_step(acc2, l3) == Some(acc3));

    assert(spec_settings_step(acc3, Seq::<char>::empty()) == Some(acc3));

    assert(spec_settings_run(acc3, Seq::<Seq<char>>::empty()) == Some(acc3));
    assert(seq![Seq::<char>::empty()].skip(1) =~= Seq::<Seq<char>>::empty());
    assert(spec_settings_run(acc3, seq![Seq::<char>::empty()]) == Some(acc3));
    assert(seq![l3, Seq::<char>::empty()].skip(1) =~= seq![Seq::<char>::empty()]);
    assert(spec_settings_run(acc2, seq![l3, Seq::<char>::empty()]) == Some(acc3));
    assert(seq![l2, l3, Seq::<char>::empty()].skip(1) =~= seq![l3, Seq::<char>::empty()]);
    assert(spec_settings_run(acc1, seq![l2, l3, Seq::<char>::empty()]) == Some(acc3));
    assert(lines.skip(1) =~= seq![l2, l3, Seq::<char>::empty()]);
    assert(spec_settings_run(acc0, lines) == Some(acc3));
    assert(spec_parse_settings(spec_render_settings(c)) == Some(
        ConfigV { host: c.host, port: c.port, static_dir: c.static_dir },
    ));
    assert(ConfigV { host: c.host, port: c.port, static_dir: c.static_dir } == c);
}

} // verus!
