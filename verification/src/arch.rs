//! Target architecture names: the `base+feat1-feat2` syntax, its parser,
//! the display form, and the build options each architecture maps to.

use vstd::prelude::*;
use vstd::string::StringExecFns;
use vstd::string::StringSliceAdditionalSpecFns;

use crate::utils::{bytes_eq, str_to_bytes, vec_slice};

verus! {

/// The Arm M-profile architecture version.
#[derive(Debug, Copy, Clone, PartialEq, Eq, Structural)]
pub enum ArmMVersion {
    Armv6M,
    Armv7M,
    Armv8MBaseline,
    Armv8MMainline,
}

/// The RISC-V register width.
#[derive(Debug, Copy, Clone, PartialEq, Eq, Structural)]
pub enum Xlen {
    _32,
    _64,
}

/// A target architecture, named by a base plus feature toggles.
#[derive(Debug, Copy, Clone, PartialEq, Eq, Structural)]
pub enum Arch {
    /// Armv7-A.
    Armv7A,
    /// Arm M-profile, with the floating-point and DSP extensions.
    ArmM { version: ArmMVersion, fpu: bool, dsp: bool },
    /// RISC-V, with the reduced register set and the single-letter
    /// standard extensions.
    Riscv { xlen: Xlen, e: bool, m: bool, a: bool, c: bool, f: bool, d: bool },
}

/// Why an architecture string was rejected.
#[derive(Debug, Clone, PartialEq, Eq)]
pub enum ArchParseError {
    /// The base name before the first feature toggle is unknown.
    UnknownBase(String),
    /// A feature name after `+` or `-` is unknown for the base.
    UnknownFeature(String),
}

// ---------------------------------------------------------------------
// Display form

/// The feature suffixes of an Arm M-profile name.
pub open spec fn spec_arm_flags(fpu: bool, dsp: bool) -> Seq<char> {
    (if fpu {
        "+fpu"@
    } else {
        Seq::empty()
    }) + (if dsp {
        "+dsp"@
    } else {
        Seq::empty()
    })
}

/// The display name of an architecture. Features folded into a richer
/// base name are not repeated as suffixes.
pub open spec fn spec_arch_name(a: Arch) -> Seq<char> {
    match a {
        Arch::Armv7A => "cortex_a9"@,
        Arch::ArmM { version, fpu, dsp } => {
            match version {
                ArmMVersion::Armv6M => "cortex_m0"@ + spec_arm_flags(fpu, dsp),
                ArmMVersion::Armv7M => {
                    if fpu && dsp {
                        "cortex_m4f"@
                    } else if !fpu && dsp {
                        "cortex_m4"@
                    } else {
                        "cortex_m3"@ + spec_arm_flags(fpu, dsp)
                    }
                },
                ArmMVersion::Armv8MBaseline => "cortex_m23"@ + spec_arm_flags(fpu, dsp),
                ArmMVersion::Armv8MMainline => "cortex_m33"@ + spec_arm_flags(fpu, dsp),
            }
        },
        Arch::Riscv { xlen, e, m, a, c, f, d } => {
            (match (xlen, e) {
                (Xlen::_32, true) => "rv32e"@,
                (Xlen::_32, false) => "rv32i"@,
                (Xlen::_64, true) => "rv64e"@,
                (Xlen::_64, false) => "rv64i"@,
            }) + (if m {
                "+m"@
            } else {
                Seq::empty()
            }) + (if a {
                "+a"@
            } else {
                Seq::empty()
            }) + (if c {
                "+c"@
            } else {
                Seq::empty()
            }) + (if f {
                "+f"@
            } else {
                Seq::empty()
            }) + (if d {
                "+d"@
            } else {
                Seq::empty()
            })
        },
    }
}

impl Arch {
    /// The display name: the richest matching base, then one `+feat`
    /// suffix per remaining enabled feature.
    pub fn to_string(&self) -> (r: String)
        ensures
            r@ == spec_arch_name(*self),
    {
        let mut s = String::new();
        match *self {
            Arch::Armv7A => {
                s.append("cortex_a9");
            },
            Arch::ArmM { version, fpu, dsp } => {
                let (base, fpu, dsp): (&'static str, bool, bool) = match version {
                    ArmMVersion::Armv6M => ("cortex_m0", fpu, dsp),
                    ArmMVersion::Armv7M => {
                        if fpu && dsp {
                            ("cortex_m4f", false, false)
                        } else if !fpu && dsp {
                            ("cortex_m4", false, false)
                        } else {
                            ("cortex_m3", fpu, dsp)
                        }
                    },
                    ArmMVersion::Armv8MBaseline => ("cortex_m23", fpu, dsp),
                    ArmMVersion::Armv8MMainline => ("cortex_m33", fpu, dsp),
                };
                s.append(base);
                if fpu {
                    s.append("+fpu");
                }
                if dsp {
                    s.append("+dsp");
                }
            },
            Arch::Riscv { xlen, e, m, a, c, f, d } => {
                let base: &'static str = match (xlen, e) {
                    (Xlen::_32, true) => "rv32e",
                    (Xlen::_32, false) => "rv32i",
                    (Xlen::_64, true) => "rv64e",
                    (Xlen::_64, false) => "rv64i",
                };
                s.append(base);
                if m {
                    s.append("+m");
                }
                if a {
                    s.append("+a");
                }
                if c {
                    s.append("+c");
                }
                if f {
                    s.append("+f");
                }
                if d {
                    s.append("+d");
                }
            },
        }
        proof {
            assert(s@ =~= spec_arch_name(*self));
        }
        s
    }
}

// ---------------------------------------------------------------------
// Parsing

/// Whether a byte starts a feature toggle.
pub open spec fn spec_is_delim(b: u8) -> bool {
    b == 0x2b || b == 0x2d  // '+' or '-'
}

/// The offset of the first feature toggle, or the length if none.
pub open spec fn spec_first_delim(s: Seq<u8>) -> int
    decreases s.len(),
{
    if s.len() == 0 {
        0
    } else if spec_is_delim(s[0]) {
        0
    } else {
        1 + spec_first_delim(s.drop_first())
    }
}

/// The architecture a base name names, if any.
pub open spec fn spec_lookup_base(s: Seq<u8>) -> Option<Arch> {
    if s == "cortex_a9".spec_bytes() {
        Some(Arch::Armv7A)
    } else if s == "cortex_m0".spec_bytes() {
        Some(Arch::ArmM { version: ArmMVersion::Armv6M, fpu: false, dsp: false })
    } else if s == "cortex_m3".spec_bytes() {
        Some(Arch::ArmM { version: ArmMVersion::Armv7M, fpu: false, dsp: false })
    } else if s == "cortex_m4".spec_bytes() {
        Some(Arch::ArmM { version: ArmMVersion::Armv7M, fpu: false, dsp: true })
    } else if s == "cortex_m4f".spec_bytes() {
        Some(Arch::ArmM { version: ArmMVersion::Armv7M, fpu: true, dsp: true })
    } else if s == "cortex_m23".spec_bytes() {
        Some(Arch::ArmM { version: ArmMVersion::Armv8MBaseline, fpu: false, dsp: false })
    } else if s == "cortex_m33".spec_bytes() {
        Some(Arch::ArmM { version: ArmMVersion::Armv8MMainline, fpu: false, dsp: false })
    } else if s == "rv32i".spec_bytes() {
        Some(
            Arch::Riscv {
                xlen: Xlen::_32,
                e: false,
                m: false,
                a: false,
                c: false,
                f: false,
                d: false,
            },
        )
    } else if s == "rv64i".spec_bytes() {
        Some(
            Arch::Riscv {
                xlen: Xlen::_64,
                e: false,
                m: false,
                a: false,
                c: false,
                f: false,
                d: false,
            },
        )
    } else if s == "rv32e".spec_bytes() {
        Some(
            Arch::Riscv {
                xlen: Xlen::_32,
                e: true,
                m: false,
                a: false,
                c: false,
                f: false,
                d: false,
            },
        )
    } else {
        None
    }
}

/// The architecture with one feature toggled, where the base knows it.
pub open spec fn spec_with_feature(arch: Arch, name: Seq<u8>, enable: bool) -> Option<Arch> {
    match arch {
        Arch::Armv7A => None,
        Arch::ArmM { version, fpu, dsp } => {
            if name == "fpu".spec_bytes() {
                Some(Arch::ArmM { version, fpu: enable, dsp })
            } else if name == "dsp".spec_bytes() {
                Some(Arch::ArmM { version, fpu, dsp: enable })
            } else {
                None
            }
        },
        Arch::Riscv { xlen, e, m, a, c, f, d } => {
            if name == "e".spec_bytes() {
                Some(Arch::Riscv { xlen, e: enable, m, a, c, f, d })
            } else if name == "m".spec_bytes() {
                Some(Arch::Riscv { xlen, e, m: enable, a, c, f, d })
            } else if name == "a".spec_bytes() {
                Some(Arch::Riscv { xlen, e, m, a: enable, c, f, d })
            } else if name == "c".spec_bytes() {
                Some(Arch::Riscv { xlen, e, m, a, c: enable, f, d })
            } else if name == "f".spec_bytes() {
                Some(Arch::Riscv { xlen, e, m, a, c, f: enable, d })
            } else if name == "d".spec_bytes() {
                Some(Arch::Riscv { xlen, e, m, a, c, f, d: enable })
            } else {
                None
            }
        },
    }
}

/// The first toggle lies within the string.
proof fn lemma_first_delim_bound(s: Seq<u8>)
    ensures
        0 <= spec_first_delim(s) <= s.len(),
    decreases s.len(),
{
    if s.len() > 0 && !spec_is_delim(s[0]) {
        lemma_first_delim_bound(s.drop_first());
    }
}

/// Folds the feature toggles following the base over the architecture.
pub open spec fn spec_parse_feats(arch: Arch, s: Seq<u8>) -> Option<Arch>
    decreases s.len(),
    via spec_parse_feats_decreases
{
    if s.len() == 0 {
        Some(arch)
    } else {
        let enable = s[0] == 0x2b;
        let k = 1 + spec_first_delim(s.skip(1));
        match spec_with_feature(arch, s.subrange(1, k), enable) {
            Some(a2) => spec_parse_feats(a2, s.skip(k)),
            None => None,
        }
    }
}

#[via_fn]
proof fn spec_parse_feats_decreases(arch: Arch, s: Seq<u8>) {
    if s.len() != 0 {
        lemma_first_delim_bound(s.skip(1));
    }
}

/// The architecture a whole `base+feat1-feat2` string names, if any.
pub open spec fn spec_parse_arch(s: Seq<u8>) -> Option<Arch> {
    let i = spec_first_delim(s);
    match spec_lookup_base(s.take(i)) {
        Some(a) => spec_parse_feats(a, s.skip(i)),
        None => None,
    }
}

/// The offset of the first feature toggle at or after `from`.
fn find_delim(v: &Vec<u8>, from: usize) -> (r: usize)
    requires
        from <= v@.len(),
    ensures
        from <= r <= v@.len(),
        r == from + spec_first_delim(v@.skip(from as int)),
{
    let mut i: usize = from;
    while i < v.len()
        invariant
            from <= i <= v@.len(),
            from + spec_first_delim(v@.skip(from as int)) == i + spec_first_delim(
                v@.skip(i as int),
            ),
        decreases v@.len() - i,
    {
        let b = v[i];
        proof {
            assert(v@.skip(i as int)[0] == v@[i as int]);
            assert(v@.skip(i as int).drop_first() =~= v@.skip(i + 1));
        }
        if b == 0x2b || b == 0x2d {
            return i;
        }
        i = i + 1;
    }
    proof {
        assert(v@.skip(i as int).len() == 0);
    }
    i
}

impl Arch {
    /// The architecture with the named feature toggled, or `None` where
    /// the base has no such feature.
    pub fn with_feature_by_name(self, name: &str, enable: bool) -> (r: Option<Arch>)
        ensures
            r == spec_with_feature(self, name.spec_bytes(), enable),
    {
        let bytes = str_to_bytes(name);
        self.with_feature_bytes(&bytes, enable)
    }

    /// As [`Arch::with_feature_by_name`], over the name's bytes.
    fn with_feature_bytes(self, name: &Vec<u8>, enable: bool) -> (r: Option<Arch>)
        ensures
            r == spec_with_feature(self, name@, enable),
    {
        match self {
            Arch::Armv7A => None,
            Arch::ArmM { version, fpu, dsp } => {
                if bytes_eq(name, &str_to_bytes("fpu")) {
                    Some(Arch::ArmM { version, fpu: enable, dsp })
                } else if bytes_eq(name, &str_to_bytes("dsp")) {
                    Some(Arch::ArmM { version, fpu, dsp: enable })
                } else {
                    None
                }
            },
            Arch::Riscv { xlen, e, m, a, c, f, d } => {
                if bytes_eq(name, &str_to_bytes("e")) {
                    Some(Arch::Riscv { xlen, e: enable, m, a, c, f, d })
                } else if bytes_eq(name, &str_to_bytes("m")) {
                    Some(Arch::Riscv { xlen, e, m: enable, a, c, f, d })
                } else if bytes_eq(name, &str_to_bytes("a")) {
                    Some(Arch::Riscv { xlen, e, m, a: enable, c, f, d })
                } else if bytes_eq(name, &str_to_bytes("c")) {
                    Some(Arch::Riscv { xlen, e, m, a, c: enable, f, d })
                } else if bytes_eq(name, &str_to_bytes("f")) {
                    Some(Arch::Riscv { xlen, e, m, a, c, f: enable, d })
                } else if bytes_eq(name, &str_to_bytes("d")) {
                    Some(Arch::Riscv { xlen, e, m, a, c, f, d: enable })
                } else {
                    None
                }
            },
        }
    }

    /// Looks up a bare base name.
    fn lookup_base(base: &Vec<u8>) -> (r: Option<Arch>)
        ensures
            r == spec_lookup_base(base@),
    {
        if bytes_eq(base, &str_to_bytes("cortex_a9")) {
            Some(Arch::Armv7A)
        } else if bytes_eq(base, &str_to_bytes("cortex_m0")) {
            Some(Arch::ArmM { version: ArmMVersion::Armv6M, fpu: false, dsp: false })
        } else if bytes_eq(base, &str_to_bytes("cortex_m3")) {
            Some(Arch::ArmM { version: ArmMVersion::Armv7M, fpu: false, dsp: false })
        } else if bytes_eq(base, &str_to_bytes("cortex_m4")) {
            Some(Arch::ArmM { version: ArmMVersion::Armv7M, fpu: false, dsp: true })
        } else if bytes_eq(base, &str_to_bytes("cortex_m4f")) {
            Some(Arch::ArmM { version: ArmMVersion::Armv7M, fpu: true, dsp: true })
        } else if bytes_eq(base, &str_to_bytes("cortex_m23")) {
            Some(Arch::ArmM { version: ArmMVersion::Armv8MBaseline, fpu: false, dsp: false })
        } else if bytes_eq(base, &str_to_bytes("cortex_m33")) {
            Some(Arch::ArmM { version: ArmMVersion::Armv8MMainline, fpu: false, dsp: false })
        } else if bytes_eq(base, &str_to_bytes("rv32i")) {
            Some(
                Arch::Riscv {
                    xlen: Xlen::_32,
                    e: false,
                    m: false,
                    a: false,
                    c: false,
                    f: false,
                    d: false,
                },
            )
        } else if bytes_eq(base, &str_to_bytes("rv64i")) {
            Some(
                Arch::Riscv {
                    xlen: Xlen::_64,
                    e: false,
                    m: false,
                    a: false,
                    c: false,
                    f: false,
                    d: false,
                },
            )
        } else if bytes_eq(base, &str_to_bytes("rv32e")) {
            Some(
                Arch::Riscv {
                    xlen: Xlen::_32,
                    e: true,
                    m: false,
                    a: false,
                    c: false,
                    f: false,
                    d: false,
                },
            )
        } else {
            None
        }
    }

    /// Parses a `base+feat1-feat2` string: a named base, then `+feat` to
    /// enable and `-feat` to disable one feature each. `Err` exactly on
    /// the strings that name no architecture: an unknown base name gives
    /// [`ArchParseError::UnknownBase`] carrying that name, an unknown
    /// feature [`ArchParseError::UnknownFeature`] carrying that feature.
    pub fn try_from_str(s: &str) -> (r: Result<Arch, ArchParseError>)
        ensures
            match r {
                Ok(a) => spec_parse_arch(s.spec_bytes()) == Some(a),
                Err(e) => {
                    &&& spec_parse_arch(s.spec_bytes()) is None
                    &&& (e is UnknownBase <==> spec_lookup_base(
                        s.spec_bytes().take(spec_first_delim(s.spec_bytes())),
                    ) is None)
                },
            },
    {
        let bytes = str_to_bytes(s);
        let blen = bytes.len();
        let i0 = find_delim(&bytes, 0);
        proof {
            assert(bytes@.skip(0) =~= bytes@);
            assert(bytes@.take(i0 as int) =~= bytes@.subrange(0, i0 as int));
        }
        let base = vec_slice(&bytes, 0, i0);
        let mut arch = match Self::lookup_base(&base) {
            Some(a) => a,
            None => {
                let token = match crate::cargo::bytes_to_string(base) {
                    Some(t) => t,
                    None => String::from_str(s),
                };
                return Err(ArchParseError::UnknownBase(token));
            },
        };
        let mut i: usize = i0;
        while i < blen
            invariant
                i0 <= i <= blen,
                blen == bytes@.len(),
                bytes@ == s.spec_bytes(),
                spec_lookup_base(bytes@.take(spec_first_delim(bytes@))) is Some,
                spec_parse_arch(bytes@) == spec_parse_feats(arch, bytes@.skip(i as int)),
            decreases blen - i,
        {
            let ghost pre = bytes@.skip(i as int);
            let enable = bytes[i] == 0x2b;
            proof {
                assert(pre[0] == bytes@[i as int]);
            }
            let k = find_delim(&bytes, i + 1);
            proof {
                assert(pre.skip(1) =~= bytes@.skip(i + 1));
                assert(pre.subrange(1, (k - i) as int) =~= bytes@.subrange(i + 1, k as int));
                assert(pre.skip((k - i) as int) =~= bytes@.skip(k as int));
            }
            let feat = vec_slice(&bytes, i + 1, k);
            arch = match arch.with_feature_bytes(&feat, enable) {
                Some(a2) => a2,
                None => {
                    let token = match crate::cargo::bytes_to_string(feat) {
                        Some(t) => t,
                        None => String::from_str(s),
                    };
                    return Err(ArchParseError::UnknownFeature(token));
                },
            };
            i = k;
        }
        proof {
            assert(bytes@.skip(blen as int).len() == 0);
        }
        Ok(arch)
    }
}

impl core::str::FromStr for Arch {
    type Err = ArchParseError;

    fn from_str(s: &str) -> Result<Arch, ArchParseError> {
        Arch::try_from_str(s)
    }
}

// ---------------------------------------------------------------------
// Build options

/// The options passed to the compiler to build for some architecture: a
/// target triple, and extra target features where no triple matches
/// exactly.
#[derive(Debug)]
pub struct BuildOpt {
    pub target_triple: &'static str,
    pub target_features: String,
}

/// The mathematical value of a [`BuildOpt`].
pub struct BuildOptView {
    pub target_triple: Seq<char>,
    pub target_features: Seq<char>,
}

impl View for BuildOpt {
    type V = BuildOptView;

    open spec fn view(&self) -> BuildOptView {
        BuildOptView { target_triple: self.target_triple@, target_features: self.target_features@ }
    }
}

/// Joins the present entries with commas, no spaces.
pub open spec fn spec_join_features(entries: Seq<Option<Seq<char>>>) -> Seq<char>
    decreases entries.len(),
{
    if entries.len() == 0 {
        Seq::empty()
    } else {
        let rest = spec_join_features(entries.drop_first());
        match entries[0] {
            None => rest,
            Some(s) => {
                if rest.len() == 0 {
                    s
                } else {
                    s + ","@ + rest
                }
            },
        }
    }
}

/// The views of a list of optional feature strings.
pub open spec fn spec_feature_views(s: Seq<Option<&'static str>>) -> Seq<Option<Seq<char>>> {
    s.map(
        |i: int, o: Option<&'static str>|
            match o {
                Some(x) => Some(x@),
                None => None,
            },
    )
}

/// The feature list of the generic RISC-V build: deviations from the
/// `imac` baseline the chosen triple assumes.
pub open spec fn spec_riscv_features(e: bool, m: bool, a: bool, c: bool, f: bool, d: bool) -> Seq<
    Option<Seq<char>>,
> {
    seq![
        if e {
            Some("+e"@)
        } else {
            None
        },
        if m {
            None
        } else {
            Some("-m"@)
        },
        if a {
            None
        } else {
            Some("-a"@)
        },
        if c {
            None
        } else {
            Some("-c"@)
        },
        if f {
            Some("+f"@)
        } else {
            None
        },
        if d {
            Some("+d"@)
        } else {
            None
        },
    ]
}

/// The build options of an architecture: a bare triple where one matches
/// the feature set exactly, a baseline triple plus feature deviations for
/// the remaining RISC-V sets, and `None` for Arm feature sets no triple
/// can express.
pub open spec fn spec_build_opt(arch: Arch) -> Option<BuildOptView> {
    match arch {
        Arch::Armv7A => Some(
            BuildOptView { target_triple: "armv7a-none-eabi"@, target_features: Seq::empty() },
        ),
        Arch::ArmM { version, fpu, dsp } => {
            let triple: Option<Seq<char>> = match version {
                ArmMVersion::Armv6M => {
                    if !fpu && !dsp {
                        Some("thumbv6m-none-eabi"@)
                    } else {
                        None
                    }
                },
                ArmMVersion::Armv7M => {
                    if !fpu && !dsp {
                        Some("thumbv7m-none-eabi"@)
                    } else if !fpu && dsp {
                        Some("thumbv7em-none-eabi"@)
                    } else if fpu && dsp {
                        Some("thumbv7em-none-eabihf"@)
                    } else {
                        None
                    }
                },
                ArmMVersion::Armv8MBaseline => {
                    if !fpu && !dsp {
                        Some("thumbv8m.base-none-eabi"@)
                    } else {
                        None
                    }
                },
                ArmMVersion::Armv8MMainline => {
                    if !fpu && !dsp {
                        Some("thumbv8m.main-none-eabi"@)
                    } else if fpu && !dsp {
                        Some("thumbv8m.main-none-eabihf"@)
                    } else {
                        None
                    }
                },
            };
            match triple {
                Some(t) => Some(BuildOptView { target_triple: t, target_features: Seq::empty() }),
                None => None,
            }
        },
        Arch::Riscv { xlen, e, m, a, c, f, d } => {
            if !e && !m && !a && !c && !f && !d && xlen is _32 {
                Some(
                    BuildOptView {
                        target_triple: "riscv32i-unknown-none-elf"@,
                        target_features: Seq::empty(),
                    },
                )
            } else if !e && m && !a && c && !f && !d && xlen is _32 {
                Some(
                    BuildOptView {
                        target_triple: "riscv32imc-unknown-none-elf"@,
                        target_features: Seq::empty(),
                    },
                )
            } else if !e && m && a && c && !f && !d && xlen is _32 {
                Some(
                    BuildOptView {
                        target_triple: "riscv32imac-unknown-none-elf"@,
                        target_features: Seq::empty(),
                    },
                )
            } else if !e && m && a && c && !f && !d && xlen is _64 {
                Some(
                    BuildOptView {
                        target_triple: "riscv64imac-unknown-none-elf"@,
                        target_features: Seq::empty(),
                    },
                )
            } else if !e && m && a && c && f && d && xlen is _64 {
                Some(
                    BuildOptView {
                        target_triple: "riscv64gc-unknown-none-elf"@,
                        target_features: Seq::empty(),
                    },
                )
            } else {
                Some(
                    BuildOptView {
                        target_triple: (if xlen is _32 {
                            "riscv32imac-unknown-none-elf"@
                        } else {
                            "riscv64imac-unknown-none-elf"@
                        }),
                        target_features: spec_join_features(spec_riscv_features(e, m, a, c, f, d)),
                    },
                )
            }
        },
    }
}

/// Joins the entries from `i` on with commas.
fn join_features_from(entries: &Vec<Option<&'static str>>, i: usize) -> (r: String)
    requires
        i <= entries@.len(),
    ensures
        r@ == spec_join_features(spec_feature_views(entries@).skip(i as int)),
    decreases entries@.len() - i,
{
    let ghost views = spec_feature_views(entries@);
    if i == entries.len() {
        proof {
            assert(views.skip(i as int).len() == 0);
        }
        String::new()
    } else {
        let rest = join_features_from(entries, i + 1);
        proof {
            assert(views.skip(i as int)[0] == views[i as int]);
            assert(views.skip(i as int).drop_first() =~= views.skip(i + 1));
        }
        match entries[i] {
            None => rest,
            Some(s) => {
                if rest.as_str().is_empty() {
                    let mut out = String::new();
                    out.append(s);
                    proof {
                        assert(out@ =~= s@);
                    }
                    out
                } else {
                    let mut out = String::new();
                    out.append(s);
                    out.append(",");
                    out.append(rest.as_str());
                    proof {
                        assert(out@ =~= s@ + ","@ + rest@);
                    }
                    out
                }
            },
        }
    }
}

impl BuildOpt {
    /// Build options of a bare target triple, with no extra features.
    pub fn from_target_triple(target_triple: &'static str) -> (r: Self)
        ensures
            r@.target_triple == target_triple@,
            r@.target_features == Seq::<char>::empty(),
    {
        BuildOpt { target_triple, target_features: String::new() }
    }

    /// The same options with the present features joined by commas.
    pub fn with_target_features(self, entries: &Vec<Option<&'static str>>) -> (r: Self)
        ensures
            r@.target_triple == self@.target_triple,
            r@.target_features == spec_join_features(spec_feature_views(entries@)),
    {
        let features = join_features_from(entries, 0);
        proof {
            assert(spec_feature_views(entries@).skip(0) =~= spec_feature_views(entries@));
        }
        BuildOpt { target_triple: self.target_triple, target_features: features }
    }
}

impl Arch {
    /// The build options for this architecture, or `None` where no
    /// target triple can express the feature set.
    pub fn build_opt(&self) -> (r: Option<BuildOpt>)
        ensures
            match r {
                Some(bo) => spec_build_opt(*self) == Some(bo@),
                None => spec_build_opt(*self) is None,
            },
    {
        match *self {
            Arch::Armv7A => Some(BuildOpt::from_target_triple("armv7a-none-eabi")),
            Arch::ArmM { version, fpu, dsp } => {
                let triple: Option<&'static str> = match version {
                    ArmMVersion::Armv6M => {
                        if !fpu && !dsp {
                            Some("thumbv6m-none-eabi")
                        } else {
                            None
                        }
                    },
                    ArmMVersion::Armv7M => {
                        if !fpu && !dsp {
                            Some("thumbv7m-none-eabi")
                        } else if !fpu && dsp {
                            Some("thumbv7em-none-eabi")
                        } else if fpu && dsp {
                            Some("thumbv7em-none-eabihf")
                        } else {
                            None
                        }
                    },
                    ArmMVersion::Armv8MBaseline => {
                        if !fpu && !dsp {
                            Some("thumbv8m.base-none-eabi")
                        } else {
                            None
                        }
                    },
                    ArmMVersion::Armv8MMainline => {
                        if !fpu && !dsp {
                            Some("thumbv8m.main-none-eabi")
                        } else if fpu && !dsp {
                            Some("thumbv8m.main-none-eabihf")
                        } else {
                            None
                        }
                    },
                };
                match triple {
                    Some(t) => Some(BuildOpt::from_target_triple(t)),
                    None => None,
                }
            },
            Arch::Riscv { xlen, e, m, a, c, f, d } => {
                let exact: Option<&'static str> = if !e && !m && !a && !c && !f && !d && matches!(
                    xlen,
                    Xlen::_32,
                ) {
                    Some("riscv32i-unknown-none-elf")
                } else if !e && m && !a && c && !f && !d && matches!(xlen, Xlen::_32) {
                    Some("riscv32imc-unknown-none-elf")
                } else if !e && m && a && c && !f && !d && matches!(xlen, Xlen::_32) {
                    Some("riscv32imac-unknown-none-elf")
                } else if !e && m && a && c && !f && !d && matches!(xlen, Xlen::_64) {
                    Some("riscv64imac-unknown-none-elf")
                } else if !e && m && a && c && f && d && matches!(xlen, Xlen::_64) {
                    Some("riscv64gc-unknown-none-elf")
                } else {
                    None
                };
                match exact {
                    Some(t) => Some(BuildOpt::from_target_triple(t)),
                    None => {
                        let base: &'static str = match xlen {
                            Xlen::_32 => "riscv32imac-unknown-none-elf",
                            Xlen::_64 => "riscv64imac-unknown-none-elf",
                        };
                        let mut entries: Vec<Option<&'static str>> = Vec::new();
                        entries.push(
                            if e {
                                Some("+e")
                            } else {
                                None
                            },
                        );
                        entries.push(
                            if m {
                                None
                            } else {
                                Some("-m")
                            },
                        );
                        entries.push(
                            if a {
                                None
                            } else {
                                Some("-a")
                            },
                        );
                        entries.push(
                            if c {
                                None
                            } else {
                                Some("-c")
                            },
                        );
                        entries.push(
                            if f {
                                Some("+f")
                            } else {
                                None
                            },
                        );
                        entries.push(
                            if d {
                                Some("+d")
                            } else {
                                None
                            },
                        );
                        proof {
                            assert(spec_feature_views(entries@) =~~= spec_riscv_features(
                                e,
                                m,
                                a,
                                c,
                                f,
                                d,
                            ));
                        }
                        Some(BuildOpt::from_target_triple(base).with_target_features(&entries))
                    },
                }
            },
        }
    }
}

} // verus!
