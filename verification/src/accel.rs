//! Acceleration vectors, the channels that their components come from, and
//! the rotation that a tilt stands for.

use vstd::prelude::*;
use vstd::std_specs::ops::{AddSpec, SubSpec};
use core::ops::{Add, AddAssign, Sub};
use crate::descriptor::{
    converted,
    converts_to,
    described,
    DecodeError,
    DescriptorError,
    ScanDescriptor,
    ScanType,
};
use crate::options::Options;
use crate::rotation::Rotation;
use crate::text::{chars_of, same_text, same_trimmed, trim_bounds, trimmed};
use vstd::slice::slice_subrange;

verus! {

/// Describes an acceleration vector.
#[derive(Default, Debug, Clone, Copy)]
pub struct AccelerationVector<T> {
    pub x: T,
    pub y: T,
    pub z: T,
}

impl<T: Add<T>> Add<AccelerationVector<T>> for AccelerationVector<T> {
    type Output = AccelerationVector<<T as Add>::Output>;

    /// Adds component by component.
    fn add(self, other: AccelerationVector<T>) -> AccelerationVector<<T as Add>::Output> {
        AccelerationVector { x: self.x + other.x, y: self.y + other.y, z: self.z + other.z }
    }
}

impl<T: Add<T>> vstd::std_specs::ops::AddSpecImpl<AccelerationVector<T>> for AccelerationVector<T> {
    open spec fn obeys_add_spec() -> bool {
        T::obeys_add_spec()
    }

    open spec fn add_req(self, other: AccelerationVector<T>) -> bool {
        &&& self.x.add_req(other.x)
        &&& self.y.add_req(other.y)
        &&& self.z.add_req(other.z)
    }

    open spec fn add_spec(self, other: AccelerationVector<T>) -> AccelerationVector<
        <T as Add>::Output,
    > {
        AccelerationVector {
            x: self.x.add_spec(other.x),
            y: self.y.add_spec(other.y),
            z: self.z.add_spec(other.z),
        }
    }
}

impl<T: Sub<Output = T>> Sub<AccelerationVector<T>> for AccelerationVector<T> {
    type Output = AccelerationVector<T>;

    /// Subtracts component by component.
    fn sub(self, other: AccelerationVector<T>) -> AccelerationVector<T> {
        AccelerationVector { x: self.x - other.x, y: self.y - other.y, z: self.z - other.z }
    }
}

impl<T: Sub<Output = T>> vstd::std_specs::ops::SubSpecImpl<AccelerationVector<T>> for AccelerationVector<T> {
    open spec fn obeys_sub_spec() -> bool {
        T::obeys_sub_spec()
    }

    open spec fn sub_req(self, other: AccelerationVector<T>) -> bool {
        &&& self.x.sub_req(other.x)
        &&& self.y.sub_req(other.y)
        &&& self.z.sub_req(other.z)
    }

    open spec fn sub_spec(self, other: AccelerationVector<T>) -> AccelerationVector<T> {
        AccelerationVector {
            x: self.x.sub_spec(other.x),
            y: self.y.sub_spec(other.y),
            z: self.z.sub_spec(other.z),
        }
    }
}

impl<T: Add<Output = T> + Copy> AddAssign<AccelerationVector<T>> for AccelerationVector<T> {
    /// Adds `other` to the vector, component by component.
    fn add_assign(&mut self, other: AccelerationVector<T>)
        requires
            old(self).add_req(other),
        ensures
            T::obeys_add_spec() ==> *final(self) == old(self).add_spec(other),
    {
        self.x = self.x + other.x;
        self.y = self.y + other.y;
        self.z = self.z + other.z;
    }
}

/// How the device is tilted, as far as its rotation depends on it. With
/// `x`, `y` and `z` the components of the acceleration and `s` the
/// sensitivity, each field is one comparison.
#[derive(Debug, PartialEq, Eq, Structural, Clone, Copy)]
pub struct Tilt {
    /// `| |x| - |y| | > |z| / s + 1.4715`: the device is tilted far enough
    /// for a rotation to be told.
    pub steep: bool,
    /// `|x| > |y|`: the device leans to a side rather than to the front or
    /// the back.
    pub sideways: bool,
    /// `x < 0`.
    pub x_negative: bool,
    /// `y < 0`.
    pub y_negative: bool,
}

impl Tilt {
    /// The rotation that the tilt stands for: none where the device lies too
    /// flat, else right or left where it leans to a side, normal or inverted
    /// where it does not.
    pub open spec fn rotation(self) -> Option<Rotation> {
        if !self.steep {
            None
        } else if self.sideways {
            if self.x_negative {
                Some(Rotation::Right)
            } else {
                Some(Rotation::Left)
            }
        } else {
            if self.y_negative {
                Some(Rotation::Normal)
            } else {
                Some(Rotation::Inverted)
            }
        }
    }

    /// Returns the rotation that the tilt stands for, if it stands for one.
    pub fn orientation(&self) -> (r: Option<Rotation>)
        ensures
            r == self.rotation(),
    {
        if self.steep {
            if self.sideways {
                if self.x_negative {
                    Some(Rotation::Right)
                } else {
                    Some(Rotation::Left)
                }
            } else {
                if self.y_negative {
                    Some(Rotation::Normal)
                } else {
                    Some(Rotation::Inverted)
                }
            }
        } else {
            None
        }
    }
}

/// One axis of the sensor: its name and the descriptor of its samples.
#[derive(Debug)]
pub struct Channel {
    id: String,
    scan: ScanType,
}

impl Channel {
    /// The name of the axis.
    pub closed spec fn name(&self) -> Seq<char> {
        self.id@
    }

    /// The descriptor of the samples.
    pub closed spec fn descriptor(&self) -> ScanDescriptor {
        self.scan@
    }

    /// The value that the contents of the data file stand for: the text
    /// without the white space around it, converted under the descriptor.
    pub open spec fn value_of(&self, contents: Seq<char>) -> Option<int> {
        converted(self.descriptor(), trimmed(contents))
    }

    /// Creates the channel `id` from the contents of its descriptor file.
    pub fn new_from_file(id: &str, descr: &str, fix_sign: bool) -> (r: Result<
        Channel,
        DescriptorError,
    >)
        ensures
            match r {
                Ok(channel) => {
                    &&& channel.name() == id@
                    &&& described(descr@, fix_sign) == Some(channel.descriptor())
                },
                Err(DescriptorError::Malformed(text)) => {
                    &&& described(descr@, fix_sign) is None
                    &&& text@ == descr@
                },
            },
    {
        match ScanType::from_str(descr, fix_sign) {
            Ok(scan) => Ok(Channel { id: id.to_owned(), scan }),
            Err(e) => Err(e),
        }
    }

    /// Decodes the current value of the channel from the contents of its
    /// data file, as they were read from the start of the file.
    pub fn read(&self, contents: &str) -> (r: Result<i64, DecodeError>)
        ensures
            converts_to(self.descriptor(), trimmed(contents@), r),
    {
        let text = chars_of(contents);
        let (from, to) = trim_bounds(text.as_slice());
        self.scan.convert_chars(slice_subrange(text.as_slice(), from, to))
    }

    /// Returns the name of the axis.
    pub fn id(&self) -> (id: &str)
        ensures
            id@ == self.name(),
    {
        self.id.as_str()
    }

    /// Returns the descriptor of the samples.
    pub fn scan(&self) -> (scan: &ScanType)
        ensures
            scan@ == self.descriptor(),
    {
        &self.scan
    }
}

/// The names of the two files of a channel, within the directory of the
/// sensor.
#[derive(Debug)]
pub struct ChannelFiles {
    /// The file that holds the current sample.
    pub data: String,
    /// The file that holds the descriptor.
    pub descr: String,
}

/// The default part of a data file's name before the channel's name.
pub const DEFAULT_DATA_PREFIX: &'static str = "in_accel_";

/// The default part of a descriptor file's name before the channel's name.
pub const DEFAULT_DESCR_PREFIX: &'static str = "scan_elements/in_accel_";

/// The default part of a data file's name after the channel's name.
pub const DEFAULT_DATA_SUFFIX: &'static str = "_raw";

/// The default part of a descriptor file's name after the channel's name.
pub const DEFAULT_DESCR_SUFFIX: &'static str = "_type";

/// The default name of the file that holds the scale.
pub const DEFAULT_SCALE_FILE: &'static str = "in_accel_scale";

/// The default pattern for the directory of the sensor.
pub const DEFAULT_FSACCEL_PATH: &'static str = "/sys/bus/iio/devices/iio:device*";

/// The default setting of the sign fix, as an option's value.
pub const DEFAULT_FIX_SIGN: &'static str = "false";

/// How the files of the channels are named, and whether the sign fix is on.
#[derive(Debug)]
pub struct ChannelNaming {
    pub data_prefix: String,
    pub data_suffix: String,
    pub descr_prefix: String,
    pub descr_suffix: String,
    pub fix_sign: bool,
}

/// The value of the option `name`, or `default` where the option is not
/// set.
pub open spec fn option_or(
    options: Map<Seq<char>, Seq<char>>,
    name: Seq<char>,
    default: Seq<char>,
) -> Seq<char> {
    if options.contains_key(name) {
        options[name]
    } else {
        default
    }
}

/// What the text `setting` says of the sign fix: `true` or `false`, and
/// nothing else.
pub open spec fn fix_sign_in(setting: Seq<char>) -> Option<bool> {
    if setting == "true"@ {
        Some(true)
    } else if setting == "false"@ {
        Some(false)
    } else {
        None
    }
}

/// Returns the value of the option `name`, or `default` where the option is
/// not set.
pub fn get_or<'a>(options: &'a Options, name: &str, default: &'a str) -> (value: &'a str)
    ensures
        value@ == option_or(options@, name@, default@),
{
    match options.get(name) {
        Some(value) => value,
        None => default,
    }
}

/// What the file `name` in the directory of a sensor holds where the sensor
/// is an accelerometer with three axes.
pub const ACCELEROMETER_NAME: &'static str = "accel_3d";

/// Tells from the contents of the file `name` in the directory of a sensor
/// whether the sensor is an accelerometer with three axes. White space
/// around the name does not count.
pub fn is_accelerometer(name: &str) -> (is: bool)
    ensures
        is == (trimmed(name@) == ACCELEROMETER_NAME@),
{
    same_trimmed(name, ACCELEROMETER_NAME)
}

/// Where the scale of an accelerometer comes from.
#[derive(Debug)]
pub enum ScaleSource {
    /// The scale is given as an option, as this text.
    Given(String),
    /// The scale is read from the file of this name in the directory of the
    /// sensor. Where the file holds no number, the scale is the default if
    /// there is one.
    File { name: String, default: Option<String> },
}

/// Where the scale of an accelerometer comes from, as plain values.
pub enum ScaleSourceView {
    Given(Seq<char>),
    File { name: Seq<char>, default: Option<Seq<char>> },
}

impl View for ScaleSource {
    type V = ScaleSourceView;

    open spec fn view(&self) -> ScaleSourceView {
        match self {
            ScaleSource::Given(text) => ScaleSourceView::Given(text@),
            ScaleSource::File { name, default } => ScaleSourceView::File {
                name: name@,
                default: match default {
                    Some(text) => Some(text@),
                    None => None,
                },
            },
        }
    }
}

/// Where the options of the backend say that the scale comes from: from the
/// option `scale` if it is set; else from the file that the option
/// `scalefile` names, or the default file, with the option `defscale` to
/// fall back on.
pub open spec fn scale_source_of(options: Map<Seq<char>, Seq<char>>) -> ScaleSourceView {
    if options.contains_key("scale"@) {
        ScaleSourceView::Given(options["scale"@])
    } else {
        ScaleSourceView::File {
            name: option_or(options, "scalefile"@, DEFAULT_SCALE_FILE@),
            default: if options.contains_key("defscale"@) {
                Some(options["defscale"@])
            } else {
                None
            },
        }
    }
}

/// Returns where the options of the backend say that the scale comes from.
pub fn scale_source(options: &Options) -> (source: ScaleSource)
    ensures
        source@ == scale_source_of(options@),
{
    match options.get("scale") {
        Some(text) => ScaleSource::Given(text.to_owned()),
        None => ScaleSource::File {
            name: get_or(options, "scalefile", DEFAULT_SCALE_FILE).to_owned(),
            default: match options.get("defscale") {
                Some(text) => Some(text.to_owned()),
                None => None,
            },
        },
    }
}

/// Joins a prefix, a channel's name and a suffix to a file name.
pub fn file_name(prefix: &str, chan: &str, suffix: &str) -> (name: String)
    ensures
        name@ == prefix@ + chan@ + suffix@,
{
    let mut name = prefix.to_owned();
    name.append(chan);
    name.append(suffix);
    name
}

impl ChannelNaming {
    /// Reads the naming from the options of the backend, each part from the
    /// option of its name or, where that is not set, its default. There is
    /// no naming where the option `fix_sign` is neither `true` nor `false`.
    pub fn from_options(options: &Options) -> (r: Option<ChannelNaming>)
        ensures
            match r {
                Some(naming) => {
                    &&& naming.data_prefix@ == option_or(
                        options@,
                        "data_prefix"@,
                        DEFAULT_DATA_PREFIX@,
                    )
                    &&& naming.data_suffix@ == option_or(
                        options@,
                        "data_suffix"@,
                        DEFAULT_DATA_SUFFIX@,
                    )
                    &&& naming.descr_prefix@ == option_or(
                        options@,
                        "descr_prefix"@,
                        DEFAULT_DESCR_PREFIX@,
                    )
                    &&& naming.descr_suffix@ == option_or(
                        options@,
                        "descr_suffix"@,
                        DEFAULT_DESCR_SUFFIX@,
                    )
                    &&& fix_sign_in(option_or(options@, "fix_sign"@, DEFAULT_FIX_SIGN@)) == Some(
                        naming.fix_sign,
                    )
                },
                None => fix_sign_in(option_or(options@, "fix_sign"@, DEFAULT_FIX_SIGN@)) is None,
            },
    {
        let fix_sign = match parse_fix_sign(get_or(options, "fix_sign", DEFAULT_FIX_SIGN)) {
            Some(fix_sign) => fix_sign,
            None => {
                return None;
            },
        };
        Some(
            ChannelNaming {
                data_prefix: get_or(options, "data_prefix", DEFAULT_DATA_PREFIX).to_owned(),
                data_suffix: get_or(options, "data_suffix", DEFAULT_DATA_SUFFIX).to_owned(),
                descr_prefix: get_or(options, "descr_prefix", DEFAULT_DESCR_PREFIX).to_owned(),
                descr_suffix: get_or(options, "descr_suffix", DEFAULT_DESCR_SUFFIX).to_owned(),
                fix_sign,
            },
        )
    }

    /// Returns the names of the files of the channel `chan`.
    pub fn files(&self, chan: &str) -> (files: ChannelFiles)
        ensures
            files.data@ == self.data_prefix@ + chan@ + self.data_suffix@,
            files.descr@ == self.descr_prefix@ + chan@ + self.descr_suffix@,
    {
        ChannelFiles {
            data: file_name(self.data_prefix.as_str(), chan, self.data_suffix.as_str()),
            descr: file_name(self.descr_prefix.as_str(), chan, self.descr_suffix.as_str()),
        }
    }
}

/// Reads the setting of the sign fix: `true` or `false`, and nothing else.
pub fn parse_fix_sign(setting: &str) -> (r: Option<bool>)
    ensures
        r == fix_sign_in(setting@),
{
    if same_text(setting, "true") {
        Some(true)
    } else if same_text(setting, "false") {
        Some(false)
    } else {
        None
    }
}

/// Builds the three channels from the contents of their descriptor files.
/// The first descriptor that cannot be read is the error.
pub fn build_channels(
    chans: (&str, &str, &str),
    descrs: (&str, &str, &str),
    fix_sign: bool,
) -> (r: Result<(Channel, Channel, Channel), DescriptorError>)
    ensures
        match r {
            Ok((x, y, z)) => {
                &&& x.name() == chans.0@
                &&& y.name() == chans.1@
                &&& z.name() == chans.2@
                &&& described(descrs.0@, fix_sign) == Some(x.descriptor())
                &&& described(descrs.1@, fix_sign) == Some(y.descriptor())
                &&& described(descrs.2@, fix_sign) == Some(z.descriptor())
            },
            Err(DescriptorError::Malformed(text)) => {
                ||| (described(descrs.0@, fix_sign) is None && text@ == descrs.0@)
                ||| (described(descrs.0@, fix_sign) is Some
                    && described(descrs.1@, fix_sign) is None && text@
                    == descrs.1@)
                ||| (described(descrs.0@, fix_sign) is Some
                    && described(descrs.1@, fix_sign) is Some
                    && described(descrs.2@, fix_sign) is None && text@
                    == descrs.2@)
            },
        },
{
    let x = match Channel::new_from_file(chans.0, descrs.0, fix_sign) {
        Ok(channel) => channel,
        Err(e) => {
            return Err(e);
        },
    };
    let y = match Channel::new_from_file(chans.1, descrs.1, fix_sign) {
        Ok(channel) => channel,
        Err(e) => {
            return Err(e);
        },
    };
    let z = match Channel::new_from_file(chans.2, descrs.2, fix_sign) {
        Ok(channel) => channel,
        Err(e) => {
            return Err(e);
        },
    };
    Ok((x, y, z))
}

/// The three channels of an accelerometer that is read through files. The
/// scale that turns raw values into physical ones is applied by the caller.
#[derive(Debug)]
pub struct FsAccelerometer {
    channels: (Channel, Channel, Channel),
}

impl FsAccelerometer {
    /// The channel of the x axis.
    pub closed spec fn x(&self) -> Channel {
        self.channels.0
    }

    /// The channel of the y axis.
    pub closed spec fn y(&self) -> Channel {
        self.channels.1
    }

    /// The channel of the z axis.
    pub closed spec fn z(&self) -> Channel {
        self.channels.2
    }

    /// The values that the contents of the three data files stand for, if
    /// all three stand for one.
    pub open spec fn values_of(
        &self,
        x: Seq<char>,
        y: Seq<char>,
        z: Seq<char>,
    ) -> Option<AccelerationVector<int>> {
        if self.x().value_of(x) is Some && self.y().value_of(y) is Some && self.z().value_of(z)
            is Some {
            Some(
                AccelerationVector {
                    x: self.x().value_of(x)->0,
                    y: self.y().value_of(y)->0,
                    z: self.z().value_of(z)->0,
                },
            )
        } else {
            None
        }
    }

    /// Makes an accelerometer of three channels.
    pub fn new(channels: (Channel, Channel, Channel)) -> (accel: FsAccelerometer)
        ensures
            accel.x() == channels.0,
            accel.y() == channels.1,
            accel.z() == channels.2,
    {
        FsAccelerometer { channels }
    }

    /// Decodes the contents of the three data files.
    pub fn read(&self, x: &str, y: &str, z: &str) -> (r: Result<
        AccelerationVector<i64>,
        DecodeError,
    >)
        ensures
            match r {
                Ok(v) => self.values_of(x@, y@, z@) == Some(
                    AccelerationVector { x: v.x as int, y: v.y as int, z: v.z as int },
                ),
                Err(e) => e == DecodeError::NumberFormat && self.values_of(x@, y@, z@) is None,
            },
    {
        let vx = match self.channels.0.read(x) {
            Ok(v) => v,
            Err(e) => {
                return Err(e);
            },
        };
        let vy = match self.channels.1.read(y) {
            Ok(v) => v,
            Err(e) => {
                return Err(e);
            },
        };
        let vz = match self.channels.2.read(z) {
            Ok(v) => v,
            Err(e) => {
                return Err(e);
            },
        };
        Ok(AccelerationVector { x: vx, y: vy, z: vz })
    }

    /// Decodes the contents of the three data files and cuts each value down
    /// to its low 32 bits.
    pub fn read_raw(&self, x: &str, y: &str, z: &str) -> (r: Result<
        AccelerationVector<i32>,
        DecodeError,
    >)
        ensures
            match r {
                Ok(v) => {
                    &&& self.values_of(x@, y@, z@) is Some
                    &&& v.x == self.values_of(x@, y@, z@)->0.x as i32
                    &&& v.y == self.values_of(x@, y@, z@)->0.y as i32
                    &&& v.z == self.values_of(x@, y@, z@)->0.z as i32
                },
                Err(e) => e == DecodeError::NumberFormat && self.values_of(x@, y@, z@) is None,
            },
    {
        match self.read(x, y, z) {
            Ok(v) => Ok(
                AccelerationVector {
                    x: #[verifier::truncate] (v.x as i32),
                    y: #[verifier::truncate] (v.y as i32),
                    z: #[verifier::truncate] (v.z as i32),
                },
            ),
            Err(e) => Err(e),
        }
    }
}

} // verus!
