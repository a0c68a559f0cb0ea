//! Configuration assembled from four layers — built-in defaults, environment
//! values, an optional file layer, and command-line values — each later
//! layer overriding the earlier ones field by field.

use vstd::prelude::*;

use crate::text::{contains_char, str_chars};

verus! {

/// The finished configuration, built once at startup and immutable after.
pub struct Config {
    pub html: String,
    pub css: Option<String>,
    pub js: Option<String>,
    pub unsafe_inline: bool,
    pub host: String,
    pub port: u16,
    pub static_path: Option<String>,
    pub static_content: String,
    pub mime_types: String,
}

impl Config {
    /// The type's invariant: a static route name never holds a path
    /// separator.
    pub open spec fn wf(self) -> bool {
        self.static_path is Some ==> !self.static_path->Some_0@.contains('/')
    }

    /// Checks the invariant: the static route name, when set, holds no `/`.
    pub fn static_path_ok(&self) -> (r: bool)
        ensures
            r == self.wf(),
    {
        match &self.static_path {
            Some(p) => {
                let chars = str_chars(p.as_str());
                !contains_char(&chars, '/')
            },
            None => true,
        }
    }
}

/// One configuration layer: every field optional, unset fields deferring to
/// the layers below.
pub struct ConfigBuilder {
    pub html: Option<String>,
    pub css: Option<String>,
    pub js: Option<String>,
    pub unsafe_inline: Option<bool>,
    pub host: Option<String>,
    pub port: Option<u16>,
    pub static_path: Option<String>,
    pub static_content: Option<String>,
    pub mime_types: Option<String>,
}

/// The raw environment values a run was started with, one per variable,
/// absent when the variable is unset.
pub struct EnvSettings {
    pub html: Option<String>,
    pub css: Option<String>,
    pub js: Option<String>,
    pub unsafe_inline: Option<String>,
    pub host: Option<String>,
    pub port: Option<String>,
    pub static_path: Option<String>,
    pub static_content: Option<String>,
    pub mime_types: Option<String>,
}

/// The command-line values, already free of any argument-parsing concern.
pub struct MainArgs {
    pub html: Option<String>,
    pub css: Option<String>,
    pub js: Option<String>,
    pub unsafe_inline: bool,
    pub host: Option<String>,
    pub port: Option<u16>,
    pub static_path: Option<String>,
    pub static_content: Option<String>,
    pub mime_types: Option<String>,
}

/// Field-wise merge: a field `high` sets wins, a field it leaves unset
/// falls through to `low`.
pub open spec fn merged(low: ConfigBuilder, high: ConfigBuilder) -> ConfigBuilder {
    ConfigBuilder {
        html: if high.html is Some {
            high.html
        } else {
            low.html
        },
        css: if high.css is Some {
            high.css
        } else {
            low.css
        },
        js: if high.js is Some {
            high.js
        } else {
            low.js
        },
        unsafe_inline: if high.unsafe_inline is Some {
            high.unsafe_inline
        } else {
            low.unsafe_inline
        },
        host: if high.host is Some {
            high.host
        } else {
            low.host
        },
        port: if high.port is Some {
            high.port
        } else {
            low.port
        },
        static_path: if high.static_path is Some {
            high.static_path
        } else {
            low.static_path
        },
        static_content: if high.static_content is Some {
            high.static_content
        } else {
            low.static_content
        },
        mime_types: if high.mime_types is Some {
            high.mime_types
        } else {
            low.mime_types
        },
    }
}

/// The layer the command-line values stand for: the switch sets
/// `unsafe_inline` only when given.
pub open spec fn cmd_layer(args: MainArgs) -> ConfigBuilder {
    ConfigBuilder {
        html: args.html,
        css: args.css,
        js: args.js,
        unsafe_inline: if args.unsafe_inline {
            Some(true)
        } else {
            None
        },
        host: args.host,
        port: args.port,
        static_path: args.static_path,
        static_content: args.static_content,
        mime_types: args.mime_types,
    }
}

/// All characters are decimal digits and there is at least one.
pub open spec fn is_port_digits(s: Seq<char>) -> bool {
    s.len() > 0 && forall|i: int| 0 <= i < s.len() ==> '0' <= #[trigger] s[i] <= '9'
}

/// The number the digit string stands for.
pub open spec fn digits_value(s: Seq<char>) -> int
    decreases s.len(),
{
    if s.len() == 0 {
        0
    } else {
        digits_value(s.drop_last()) * 10 + (s.last() as int - '0' as int)
    }
}

/// What port a textual value resolves to: its number when it is a plain
/// decimal that fits a port, and the default 3333 otherwise.
pub open spec fn spec_parse_port(s: Seq<char>) -> u16 {
    if is_port_digits(s) && digits_value(s) <= 65535 {
        digits_value(s) as u16
    } else {
        3333u16
    }
}

/// Reads a port number, falling back to the default 3333 on anything that
/// is not a decimal number fitting 16 bits.
pub fn parse_port(s: &str) -> (r: u16)
    ensures
        r == spec_parse_port(s@),
{
    let chars = str_chars(s);
    if chars.len() == 0 {
        return 3333;
    }
    let mut val: u32 = 0;
    let mut i: usize = 0;
    while i < chars.len()
        invariant
            0 <= i <= chars@.len(),
            chars@ == s@,
            chars@.len() > 0,
            forall|m: int| 0 <= m < i ==> '0' <= #[trigger] chars@[m] <= '9',
            val == digits_value(chars@.take(i as int)),
            val <= 65535,
        decreases chars@.len() - i,
    {
        let c = chars[i];
        if c < '0' || c > '9' {
            assert(!is_port_digits(chars@));
            return 3333;
        }
        let d: u32 = (c as u32) - ('0' as u32);
        assert(d <= 9);
        let next: u32 = val * 10 + d;
        proof {
            assert(chars@.take(i + 1).drop_last() =~= chars@.take(i as int));
            assert(chars@.take(i + 1).last() == chars@[i as int]);
            assert(digits_value(chars@.take(i + 1)) == val * 10 + d);
        }
        if next > 65535 {
            proof {
                lemma_digits_value_grows(chars@, i + 1);
            }
            return 3333;
        }
        val = next;
        i = i + 1;
    }
    assert(chars@.take(chars@.len() as int) =~= chars@);
    assert(val == digits_value(chars@));
    val as u16
}

/// A digit string's value never shrinks as digits are appended.
proof fn lemma_digits_value_grows(s: Seq<char>, i: int)
    requires
        0 <= i <= s.len(),
        forall|m: int| 0 <= m < i ==> '0' <= #[trigger] s[m] <= '9',
    ensures
        digits_value(s) >= digits_value(s.take(i)) || !is_port_digits(s),
    decreases s.len() - i,
{
    if i == s.len() {
        assert(s.take(i) =~= s);
    } else if '0' <= s[i] && s[i] <= '9' {
        lemma_digits_value_grows(s, i + 1);
        assert(s.take(i + 1).drop_last() =~= s.take(i));
        assert(s.take(i + 1).last() == s[i]);
        assert(digits_value(s.take(i + 1)) == digits_value(s.take(i)) * 10 + (s[i] as int
            - '0' as int));
        assert(digits_value(s.take(i)) >= 0) by {
            lemma_digits_value_nonneg(s.take(i));
        }
    } else {
        assert(!is_port_digits(s));
    }
}

/// A digit string's value is never negative.
proof fn lemma_digits_value_nonneg(s: Seq<char>)
    requires
        forall|m: int| 0 <= m < s.len() ==> '0' <= #[trigger] s[m] <= '9',
    ensures
        digits_value(s) >= 0,
    decreases s.len(),
{
    if s.len() > 0 {
        lemma_digits_value_nonneg(s.drop_last());
    }
}

/// The layer the environment stands for: presence of the inline variable
/// means true, and the port variable is parsed with the 3333 fallback.
pub open spec fn env_layer(env: EnvSettings) -> ConfigBuilder {
    ConfigBuilder {
        html: env.html,
        css: env.css,
        js: env.js,
        unsafe_inline: match env.unsafe_inline {
            Some(_) => Some(true),
            None => None,
        },
        host: env.host,
        port: match env.port {
            Some(p) => Some(spec_parse_port(p@)),
            None => None,
        },
        static_path: env.static_path,
        static_content: env.static_content,
        mime_types: env.mime_types,
    }
}

impl ConfigBuilder {
    /// Merges `other` over this layer: every field `other` sets overrides.
    pub fn or_rather(self, other: ConfigBuilder) -> (r: ConfigBuilder)
        ensures
            r == merged(self, other),
    {
        ConfigBuilder {
            html: match other.html {
                Some(v) => Some(v),
                None => self.html,
            },
            css: match other.css {
                Some(v) => Some(v),
                None => self.css,
            },
            js: match other.js {
                Some(v) => Some(v),
                None => self.js,
            },
            unsafe_inline: match other.unsafe_inline {
                Some(v) => Some(v),
                None => self.unsafe_inline,
            },
            host: match other.host {
                Some(v) => Some(v),
                None => self.host,
            },
            port: match other.port {
                Some(v) => Some(v),
                None => self.port,
            },
            static_path: match other.static_path {
                Some(v) => Some(v),
                None => self.static_path,
            },
            static_content: match other.static_content {
                Some(v) => Some(v),
                None => self.static_content,
            },
            mime_types: match other.mime_types {
                Some(v) => Some(v),
                None => self.mime_types,
            },
        }
    }

    /// Merges the command-line values over this layer.
    pub fn or_from_cmd(self, args: MainArgs) -> (r: ConfigBuilder)
        ensures
            r == merged(self, cmd_layer(args)),
    {
        let layer = ConfigBuilder {
            html: args.html,
            css: args.css,
            js: args.js,
            unsafe_inline: if args.unsafe_inline {
                Some(true)
            } else {
                None
            },
            host: args.host,
            port: args.port,
            static_path: args.static_path,
            static_content: args.static_content,
            mime_types: args.mime_types,
        };
        self.or_rather(layer)
    }

    /// Merges the environment values over this layer.
    pub fn or_from_env(self, env: EnvSettings) -> (r: ConfigBuilder)
        ensures
            r == merged(self, env_layer(env)),
    {
        let port: Option<u16> = match &env.port {
            Some(p) => Some(parse_port(p.as_str())),
            None => None,
        };
        let unsafe_inline: Option<bool> = match &env.unsafe_inline {
            Some(_) => Some(true),
            None => None,
        };
        let layer = ConfigBuilder {
            html: env.html,
            css: env.css,
            js: env.js,
            unsafe_inline,
            host: env.host,
            port,
            static_path: env.static_path,
            static_content: env.static_content,
            mime_types: env.mime_types,
        };
        self.or_rather(layer)
    }

    /// Builds the configuration, failing when a required field stayed unset
    /// through every layer.
    pub fn build(self) -> (r: Result<Config, ()>)
        ensures
            (r is Ok) == (self.html is Some && self.unsafe_inline is Some && self.host is Some
                && self.port is Some && self.static_content is Some && self.mime_types is Some),
            r is Ok ==> (r->Ok_0 == (Config {
                html: self.html->Some_0,
                css: self.css,
                js: self.js,
                unsafe_inline: self.unsafe_inline->Some_0,
                host: self.host->Some_0,
                port: self.port->Some_0,
                static_path: self.static_path,
                static_content: self.static_content->Some_0,
                mime_types: self.mime_types->Some_0,
            })),
    {
        match (self.html, self.unsafe_inline, self.host, self.port, self.static_content,
            self.mime_types) {
            (Some(html), Some(unsafe_inline), Some(host), Some(port), Some(static_content),
                Some(mime_types)) => Ok(
                Config {
                    html,
                    css: self.css,
                    js: self.js,
                    unsafe_inline,
                    host,
                    port,
                    static_path: self.static_path,
                    static_content,
                    mime_types,
                },
            ),
            _ => Err(()),
        }
    }
}

impl Default for ConfigBuilder {
    /// The built-in defaults: the lowest layer of the merge.
    fn default() -> (r: ConfigBuilder)
        ensures
            r.html is Some && r.html->Some_0@ == "index.html"@,
            r.css is None,
            r.js is None,
            r.unsafe_inline == Some(false),
            r.host is Some && r.host->Some_0@ == "0.0.0.0"@,
            r.port == Some(3333u16),
            r.static_path is None,
            r.static_content is Some && r.static_content->Some_0@ == "static"@,
            r.mime_types is Some && r.mime_types->Some_0@ == "/etc/mime.types"@,
    {
        ConfigBuilder {
            html: Some("index.html".to_owned()),
            css: None,
            js: None,
            unsafe_inline: Some(false),
            host: Some("0.0.0.0".to_owned()),
            port: Some(3333),
            static_path: None,
            static_content: Some("static".to_owned()),
            mime_types: Some("/etc/mime.types".to_owned()),
        }
    }
}

/// Law: folding defaults, then environment, then file, then command line,
/// a field the command-line layer sets always wins the merge.
pub proof fn lemma_cli_precedence(
    defaults: ConfigBuilder,
    env: ConfigBuilder,
    file: ConfigBuilder,
    cli: ConfigBuilder,
)
    ensures
        ({
            let m = merged(merged(merged(defaults, env), file), cli);
            (cli.html is Some ==> m.html == cli.html) && (cli.css is Some ==> m.css == cli.css) && (
            cli.js is Some ==> m.js == cli.js) && (cli.unsafe_inline is Some ==> m.unsafe_inline
                == cli.unsafe_inline) && (cli.host is Some ==> m.host == cli.host) && (
            cli.port is Some ==> m.port == cli.port) && (cli.static_path is Some ==> m.static_path
                == cli.static_path) && (cli.static_content is Some ==> m.static_content
                == cli.static_content) && (cli.mime_types is Some ==> m.mime_types
                == cli.mime_types)
        }),
{
}

} // verus!
