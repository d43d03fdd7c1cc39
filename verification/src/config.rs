//! Validated sender configuration, its builder, and the parity ratio.
//!
//! The configuration holds plain values: the target address as its four
//! octets, paths as strings and the inter-packet delay in microseconds.

use vstd::prelude::*;
use vstd::string::StringExecFns;

use crate::error::FiudpError;

verus! {

/// Default UDP port of the FIUDP receiver.
pub const DEFAULT_UDP_PORT: u16 = 5050;

/// Default inter-packet delay in microseconds.
pub const DEFAULT_INTER_PACKET_DELAY_US: u64 = 500;

/// Default parity ratio in percent.
pub const DEFAULT_PARITY_RATIO: u8 = 15;

/// Number of parity shards for `data_shards` data shards at `ratio` percent:
/// `ceil(data_shards * ratio / 100)`, the product saturating at `usize::MAX`.
pub open spec fn parity_shards_for(ratio: u8, data_shards: nat) -> nat {
    if ratio == 0 {
        0
    } else {
        let product: nat = data_shards * (ratio as nat);
        let numerator: nat = if product <= usize::MAX { product } else { usize::MAX as nat };
        (numerator + 99) / 100
    }
}

/// Validated parity ratio percentage (0 to 100).
#[derive(Clone, Copy, Debug)]
pub struct ParityRatio(u8);

impl View for ParityRatio {
    type V = u8;

    closed spec fn view(&self) -> u8 {
        self.0
    }
}

impl ParityRatio {
    /// A parity ratio never exceeds 100 percent.
    #[verifier::type_invariant]
    pub closed spec fn in_range(self) -> bool {
        self.0 <= 100
    }

    /// The view of a parity ratio that satisfies its invariant is at most 100.
    pub proof fn lemma_at_most_100(self)
        requires
            self.in_range(),
        ensures
            self@ <= 100,
    {
    }

    /// Number of parity shards for `data_shards` data shards.
    ///
    /// Ceiling division: a non-zero ratio gives at least one parity shard
    /// for at least one data shard.
    pub fn parity_shards(self, data_shards: usize) -> (r: usize)
        ensures
            r == parity_shards_for(self@, data_shards as nat),
    {
        if self.0 == 0 {
            return 0;
        }
        let numerator: usize = match data_shards.checked_mul(self.0 as usize) {
            Some(n) => n,
            None => usize::MAX,
        };
        let q: usize = numerator / 100;
        if numerator % 100 != 0 {
            q + 1
        } else {
            q
        }
    }
}

impl TryFrom<u8> for ParityRatio {
    type Error = FiudpError;

    fn try_from(value: u8) -> (r: Result<Self, FiudpError>)
        ensures
            value <= 100 <==> r is Ok,
            r is Ok ==> r->Ok_0@ == value,
            r is Err ==> r == Err::<ParityRatio, FiudpError>(FiudpError::InvalidParityRatio(value)),
    {
        if value > 100 {
            return Err(FiudpError::InvalidParityRatio(value));
        }
        Ok(ParityRatio(value))
    }
}

impl vstd::std_specs::convert::TryFromSpecImpl<u8> for ParityRatio {
    open spec fn obeys_try_from_spec() -> bool {
        true
    }

    closed spec fn try_from_spec(value: u8) -> Result<Self, FiudpError> {
        if value > 100 {
            Err(FiudpError::InvalidParityRatio(value))
        } else {
            Ok(ParityRatio(value))
        }
    }
}

/// Parity shards follow `ceil(data_shards * ratio / 100)`: none at ratio 0,
/// at least one for a non-empty frame at a non-zero ratio, never more than
/// the data shards, and never fewer for more data shards.
pub proof fn law_parity_shards(ratio: u8, data_shards: nat, more_data_shards: nat)
    requires
        ratio <= 100,
    ensures
        ratio == 0 ==> parity_shards_for(ratio, data_shards) == 0,
        ratio > 0 && data_shards > 0 ==> parity_shards_for(ratio, data_shards) >= 1,
        parity_shards_for(ratio, data_shards) <= data_shards,
        data_shards * (ratio as nat) <= usize::MAX ==> {
            let p = parity_shards_for(ratio, data_shards);
            &&& ratio > 0 ==> p * 100 >= data_shards * (ratio as nat)
            &&& ratio > 0 ==> p * 100 < data_shards * (ratio as nat) + 100
        },
        data_shards <= more_data_shards ==> parity_shards_for(ratio, data_shards)
            <= parity_shards_for(ratio, more_data_shards),
{
    if ratio > 0 {
        let r: nat = ratio as nat;
        assert(data_shards * r <= data_shards * 100) by (nonlinear_arith)
            requires
                r <= 100,
        ;
        assert(data_shards > 0 ==> data_shards * r >= 1) by (nonlinear_arith)
            requires
                r >= 1,
        ;
        assert(data_shards <= more_data_shards ==> data_shards * r <= more_data_shards * r)
            by (nonlinear_arith);
    }
}

/// Where the input frame is read from.
pub enum InputSource {
    /// A file at the given path.
    File(String),
    /// Standard input.
    Stdin,
}

impl View for InputSource {
    type V = Option<Seq<char>>;

    /// The path of the input file, or `None` for standard input.
    open spec fn view(&self) -> Option<Seq<char>> {
        match self {
            InputSource::File(path) => Some(path@),
            InputSource::Stdin => None,
        }
    }
}

/// The abstract content of a [`Config`].
pub struct ConfigView {
    /// The four octets of the target IPv4 address.
    pub target_ip: Seq<u8>,
    /// Seconds until the terminal's next wake window.
    pub rendezvous_secs: u32,
    /// Path of the pre-shared key file.
    pub key_path: Seq<char>,
    /// Path of the input file, or `None` for standard input.
    pub image: Option<Seq<char>>,
    /// Parity ratio in percent.
    pub parity_ratio: u8,
    /// UDP port of the target.
    pub target_port: u16,
    /// Inter-packet delay in microseconds.
    pub delay_us: u64,
}

/// Validated sender configuration.
///
/// Built by [`ConfigBuilder::build`], which checks the parity ratio.
pub struct Config {
    target_ip: [u8; 4],
    rendezvous_secs: u32,
    key_path: String,
    input: InputSource,
    parity_ratio: ParityRatio,
    target_port: u16,
    delay_us: u64,
}

impl View for Config {
    type V = ConfigView;

    closed spec fn view(&self) -> ConfigView {
        ConfigView {
            target_ip: self.target_ip@,
            rendezvous_secs: self.rendezvous_secs,
            key_path: self.key_path@,
            image: self.input@,
            parity_ratio: self.parity_ratio@,
            target_port: self.target_port,
            delay_us: self.delay_us,
        }
    }
}

impl Config {
    /// A builder with the defaults of the command line.
    pub fn builder() -> (r: ConfigBuilder)
        ensures
            r@ == default_builder_view(),
    {
        ConfigBuilder::default()
    }

    /// The four octets of the target IPv4 address.
    pub fn target_ip(&self) -> (r: [u8; 4])
        ensures
            r@ == self@.target_ip,
    {
        self.target_ip
    }

    /// Seconds until the terminal's next wake window.
    pub fn rendezvous_secs(&self) -> (r: u32)
        ensures
            r == self@.rendezvous_secs,
    {
        self.rendezvous_secs
    }

    /// Path of the pre-shared key file.
    pub fn key_path(&self) -> (r: &String)
        ensures
            r@ == self@.key_path,
    {
        &self.key_path
    }

    /// Where the input frame is read from.
    pub fn input(&self) -> (r: &InputSource)
        ensures
            r@ == self@.image,
    {
        &self.input
    }

    /// The validated parity ratio.
    pub fn parity_ratio(&self) -> (r: ParityRatio)
        ensures
            r@ == self@.parity_ratio,
    {
        self.parity_ratio
    }

    /// UDP port of the target.
    pub fn target_port(&self) -> (r: u16)
        ensures
            r == self@.target_port,
    {
        self.target_port
    }

    /// Inter-packet delay in microseconds.
    pub fn delay_us(&self) -> (r: u64)
        ensures
            r == self@.delay_us,
    {
        self.delay_us
    }
}

/// The abstract content of a [`ConfigBuilder`].
pub struct ConfigBuilderView {
    /// The four octets of the target IPv4 address, once set.
    pub target_ip: Option<Seq<u8>>,
    /// Rendezvous timer in seconds, once set.
    pub rendezvous_secs: Option<u32>,
    /// Path of the pre-shared key file, once set.
    pub key_path: Option<Seq<char>>,
    /// Path of the input file, if any.
    pub image: Option<Seq<char>>,
    /// Parity ratio in percent, not yet validated.
    pub parity_ratio: u8,
    /// UDP port of the target.
    pub port: u16,
    /// Inter-packet delay in microseconds.
    pub delay_us: u64,
}

/// The builder's state before any setter: nothing required is set, and the
/// defaults are a 15 percent parity ratio, port 5050 and a 500 us delay.
pub open spec fn default_builder_view() -> ConfigBuilderView {
    ConfigBuilderView {
        target_ip: None,
        rendezvous_secs: None,
        key_path: None,
        image: None,
        parity_ratio: DEFAULT_PARITY_RATIO,
        port: DEFAULT_UDP_PORT,
        delay_us: DEFAULT_INTER_PACKET_DELAY_US,
    }
}

/// Builder for [`Config`].
///
/// The target, the rendezvous timer and the key file are required; the other
/// fields have the defaults of the command line.
pub struct ConfigBuilder {
    target_ip: Option<[u8; 4]>,
    rendezvous_secs: Option<u32>,
    key_path: Option<String>,
    image: Option<String>,
    parity_ratio: u8,
    port: u16,
    delay_us: u64,
}

impl View for ConfigBuilder {
    type V = ConfigBuilderView;

    closed spec fn view(&self) -> ConfigBuilderView {
        ConfigBuilderView {
            target_ip: match self.target_ip {
                Some(ip) => Some(ip@),
                None => None,
            },
            rendezvous_secs: self.rendezvous_secs,
            key_path: match self.key_path {
                Some(p) => Some(p@),
                None => None,
            },
            image: match self.image {
                Some(p) => Some(p@),
                None => None,
            },
            parity_ratio: self.parity_ratio,
            port: self.port,
            delay_us: self.delay_us,
        }
    }
}

impl Default for ConfigBuilder {
    fn default() -> (r: Self)
        ensures
            r@ == default_builder_view(),
    {
        ConfigBuilder {
            target_ip: None,
            rendezvous_secs: None,
            key_path: None,
            image: None,
            parity_ratio: DEFAULT_PARITY_RATIO,
            port: DEFAULT_UDP_PORT,
            delay_us: DEFAULT_INTER_PACKET_DELAY_US,
        }
    }
}

impl ConfigBuilder {
    /// Set the target IPv4 address, as its four octets (required).
    pub fn target(self, ip: [u8; 4]) -> (r: Self)
        ensures
            r@ == (ConfigBuilderView { target_ip: Some(ip@), ..self@ }),
    {
        ConfigBuilder { target_ip: Some(ip), ..self }
    }

    /// Set the rendezvous timer in seconds (required).
    pub fn wake_at(self, secs: u32) -> (r: Self)
        ensures
            r@ == (ConfigBuilderView { rendezvous_secs: Some(secs), ..self@ }),
    {
        ConfigBuilder { rendezvous_secs: Some(secs), ..self }
    }

    /// Set the path of the 32-byte key file (required).
    pub fn key_file(self, path: &str) -> (r: Self)
        ensures
            r@ == (ConfigBuilderView { key_path: Some(path@), ..self@ }),
    {
        ConfigBuilder { key_path: Some(String::from_str(path)), ..self }
    }

    /// Set the path of the input file; without it the frame comes from
    /// standard input.
    pub fn image(self, path: &str) -> (r: Self)
        ensures
            r@ == (ConfigBuilderView { image: Some(path@), ..self@ }),
    {
        ConfigBuilder { image: Some(String::from_str(path)), ..self }
    }

    /// Set the parity ratio in percent (validated by [`Self::build`]).
    pub fn parity_ratio(self, percent: u8) -> (r: Self)
        ensures
            r@ == (ConfigBuilderView { parity_ratio: percent, ..self@ }),
    {
        ConfigBuilder { parity_ratio: percent, ..self }
    }

    /// Set the UDP port.
    pub fn port(self, port: u16) -> (r: Self)
        ensures
            r@ == (ConfigBuilderView { port, ..self@ }),
    {
        ConfigBuilder { port, ..self }
    }

    /// Set the inter-packet delay in microseconds.
    pub fn delay_us(self, us: u64) -> (r: Self)
        ensures
            r@ == (ConfigBuilderView { delay_us: us, ..self@ }),
    {
        ConfigBuilder { delay_us: us, ..self }
    }

    /// Produce the validated configuration.
    ///
    /// Fails with `InvalidParityRatio` when the ratio is above 100; otherwise
    /// the target, the rendezvous timer and the key file must have been set.
    pub fn build(self) -> (r: Result<Config, FiudpError>)
        requires
            self@.parity_ratio <= 100 ==> self@.target_ip is Some && self@.rendezvous_secs is Some
                && self@.key_path is Some,
        ensures
            self@.parity_ratio <= 100 <==> r is Ok,
            r is Err ==> r == Err::<Config, FiudpError>(
                FiudpError::InvalidParityRatio(self@.parity_ratio),
            ),
            r is Ok ==> r->Ok_0@ == (ConfigView {
                target_ip: self@.target_ip->Some_0,
                rendezvous_secs: self@.rendezvous_secs->Some_0,
                key_path: self@.key_path->Some_0,
                image: self@.image,
                parity_ratio: self@.parity_ratio,
                target_port: self@.port,
                delay_us: self@.delay_us,
            }),
    {
        let parity_ratio = ParityRatio::try_from(self.parity_ratio)?;
        let input = match self.image {
            Some(path) => InputSource::File(path),
            None => InputSource::Stdin,
        };
        Ok(Config {
            target_ip: self.target_ip.unwrap(),
            rendezvous_secs: self.rendezvous_secs.unwrap(),
            key_path: self.key_path.unwrap(),
            input,
            parity_ratio,
            target_port: self.port,
            delay_us: self.delay_us,
        })
    }
}

/// Source of the raw frame bytes.
///
/// Implemented outside the library by readers of files and standard input.
pub trait InputReader {
    /// Holds when a read of this source can end with `outcome`. A source
    /// that does not define it keeps the default, which admits every
    /// outcome.
    closed spec fn can_yield(&self, outcome: Result<Seq<u8>, FiudpError>) -> bool {
        true
    }

    /// Read the entire input frame.
    fn read_all(&self) -> (r: Result<Vec<u8>, FiudpError>)
        ensures
            self.can_yield(
                match r {
                    Ok(frame) => Ok(frame@),
                    Err(e) => Err(e),
                },
            ),
    ;
}

} // verus!
