//! Keyboards seen through the raw input API: what is read off a raw device
//! path, and the text of the keyboard listing.
use vstd::prelude::*;
use vstd::string::*;

use crate::text::{
    chars_of, decimal_digits, decimal_string, decode_utf16_lossy, decode_wide_lossy, has_prefix,
    hex_display, hex_display_string, last_index_of, last_index_of_char, lemma_split_many_iff_contains,
    lemma_split_nonempty, parse_hex_u32_from, parse_hex_u32_spec, prefix_chars, split_chars,
    split_on, string_from_chars, string_views, trim_trailing_nul, trim_trailing_nul_chars, views_of,
};

verus! {

/// Raw input device type of keyboards (`RIM_TYPEKEYBOARD`).
pub const RIM_TYPE_KEYBOARD: u32 = 1u32;

/// A keyboard known to the raw input API.
pub struct KeyboardDevice {
    pub id: Option<String>,
    pub name: Option<String>,
    pub path: Option<String>,
    pub vendor: Option<u32>,
    pub product: Option<u32>,
    pub version: Option<u32>,
}

/// The abstract value of a [`KeyboardDevice`].
pub struct KeyboardView {
    pub id: Option<Seq<char>>,
    pub name: Option<Seq<char>>,
    pub path: Option<Seq<char>>,
    pub vendor: Option<u32>,
    pub product: Option<u32>,
    pub version: Option<u32>,
}

/// The view of an optional string.
pub open spec fn opt_view(o: Option<String>) -> Option<Seq<char>> {
    match o {
        Some(s) => Some(s@),
        None => None,
    }
}

impl View for KeyboardDevice {
    type V = KeyboardView;

    open spec fn view(&self) -> KeyboardView {
        KeyboardView {
            id: opt_view(self.id),
            name: opt_view(self.name),
            path: opt_view(self.path),
            vendor: self.vendor,
            product: self.product,
            version: self.version,
        }
    }
}

/// A keyboard of which nothing is known yet.
pub open spec fn empty_keyboard() -> KeyboardView {
    KeyboardView { id: None, name: None, path: None, vendor: None, product: None, version: None }
}

impl Default for KeyboardDevice {
    fn default() -> (k: Self)
        ensures
            k@ == empty_keyboard(),
    {
        KeyboardDevice { id: None, name: None, path: None, vendor: None, product: None, version: None }
    }
}

/// Errors of the device queries.
pub enum DeviceError {
    /// A raw device path that does not start with `\\?\` or holds no `#`.
    InvalidRawPath,
    /// The raw input API listed another number of devices than it announced.
    CountMismatch { expected: u32, got: u32 },
}

/// The marker that begins every raw device path: `\\?\`.
pub open spec fn raw_path_marker() -> Seq<char> {
    seq!['\\', '\\', '?', '\\']
}

/// `s` is a raw device path the parser accepts: it starts with `\\?\` and
/// holds at least one `#`.
pub open spec fn is_raw_device_path(s: Seq<char>) -> bool {
    has_prefix(s, raw_path_marker()) && split_on(s, '#').len() > 1
}

/// The tag of the vendor field of a hardware id: `VID_`.
pub open spec fn vendor_tag() -> Seq<char> {
    seq!['V', 'I', 'D', '_']
}

/// The tag of the product field of a hardware id: `PID_`.
pub open spec fn product_tag() -> Seq<char> {
    seq!['P', 'I', 'D', '_']
}

/// The value that scanning `fields` in order leaves for the fields tagged
/// `tag`: the hexadecimal value after the tag of the last such field (`None`
/// when it does not parse), or `prev` when no field carries the tag.
pub open spec fn last_tagged_value(fields: Seq<Seq<char>>, tag: Seq<char>, prev: Option<u32>) -> Option<u32>
    decreases fields.len(),
{
    if fields.len() == 0 {
        prev
    } else if has_prefix(fields.last(), tag) {
        parse_hex_u32_spec(fields.last().skip(tag.len() as int))
    } else {
        last_tagged_value(fields.drop_last(), tag, prev)
    }
}

/// What reading the raw device path `s` makes of keyboard `k`: the id is the
/// second to last `#`-separated piece, vendor and product come from the
/// `&`-separated fields of the second piece, and the rest is kept.
pub open spec fn extracted(k: KeyboardView, s: Seq<char>) -> KeyboardView {
    let parts = split_on(s, '#');
    let fields = split_on(parts[1], '&');
    KeyboardView {
        id: Some(parts[parts.len() - 2]),
        name: k.name,
        path: k.path,
        vendor: last_tagged_value(fields, vendor_tag(), k.vendor),
        product: last_tagged_value(fields, product_tag(), k.product),
        version: k.version,
    }
}

fn has_tag(part: &Vec<char>, t0: char, t1: char, t2: char, t3: char) -> (r: bool)
    ensures
        r == has_prefix(part@, seq![t0, t1, t2, t3]),
{
    let r = part.len() >= 4 && part[0] == t0 && part[1] == t1 && part[2] == t2 && part[3] == t3;
    if r {
        assert(part@.take(4) =~= seq![t0, t1, t2, t3]);
    } else if part.len() >= 4 {
        assert(part@.take(4)[0] == part@[0]);
        assert(part@.take(4)[1] == part@[1]);
        assert(part@.take(4)[2] == part@[2]);
        assert(part@.take(4)[3] == part@[3]);
    }
    r
}

impl KeyboardDevice {
    /// Reads the id, vendor and product of the keyboard off its raw device
    /// path. A path that does not start with `\\?\` or holds no `#` is
    /// refused and leaves the keyboard unchanged.
    pub fn extract_from_raw_path(&mut self, raw_path: String) -> (r: Result<(), DeviceError>)
        ensures
            r is Ok <==> is_raw_device_path(raw_path@),
            r is Ok ==> final(self)@ == extracted(old(self)@, raw_path@),
            r is Err ==> (r matches Err(DeviceError::InvalidRawPath) && *final(self) == *old(self)),
    {
        let s = chars_of(raw_path.as_str());
        if !has_tag(&s, '\\', '\\', '?', '\\') {
            return Err(DeviceError::InvalidRawPath);
        }
        let parts = split_chars(&s, '#');
        proof {
            lemma_split_nonempty(s@, '#');
        }
        if parts.len() <= 1 {
            return Err(DeviceError::InvalidRawPath);
        }
        let ghost parts_view = split_on(s@, '#');
        assert(parts@[1]@ == parts_view[1]);
        let fields = split_chars(&parts[1], '&');
        let ghost fields_view = split_on(parts_view[1], '&');
        let ghost start = *self;
        let nf = fields.len();
        let mut j: usize = 0;
        while j < nf
            invariant
                nf == fields@.len(),
                j <= nf,
                views_of(fields@) == fields_view,
                self.vendor == last_tagged_value(fields_view.take(j as int), vendor_tag(), start.vendor),
                self.product == last_tagged_value(
                    fields_view.take(j as int),
                    product_tag(),
                    start.product,
                ),
                self.id == start.id,
                self.name == start.name,
                self.path == start.path,
                self.version == start.version,
            decreases nf - j,
        {
            let part = &fields[j];
            assert(part@ == fields_view[j as int]);
            assert(fields_view.take(j + 1).drop_last() =~= fields_view.take(j as int));
            assert(fields_view.take(j + 1).last() == fields_view[j as int]);
            if has_tag(part, 'V', 'I', 'D', '_') {
                self.vendor = parse_hex_u32_from(part, 4);
            }
            if has_tag(part, 'P', 'I', 'D', '_') {
                self.product = parse_hex_u32_from(part, 4);
            }
            j = j + 1;
        }
        assert(fields_view.take(nf as int) =~= fields_view);
        let np = parts.len();
        assert(parts@[np - 2]@ == parts_view[np - 2]);
        self.id = Some(string_from_chars(&parts[np - 2]));
        Ok(())
    }

    /// The keyboard whose device path is `path` and whose friendly name is
    /// `name`: its path is `path` up to the last `#`, and id, vendor and
    /// product are read off `path`.
    pub fn from_device_path(path: String, name: Option<String>) -> (r: Result<KeyboardDevice, DeviceError>)
        requires
            path@.contains('#'),
        ensures
            r is Ok <==> is_raw_device_path(path@),
            r is Ok <==> has_prefix(path@, raw_path_marker()),
            r matches Ok(k) ==> k@ == extracted(
                KeyboardView {
                    path: Some(path@.take(last_index_of(path@, '#')->0)),
                    name: opt_view(name),
                    ..empty_keyboard()
                },
                path@,
            ),
            r is Err ==> r matches Err(DeviceError::InvalidRawPath),
    {
        let s = chars_of(path.as_str());
        proof {
            lemma_last_index_exists(s@, '#');
            lemma_split_many_iff_contains(s@, '#');
        }
        let last_hash = match last_index_of_char(&s, '#') {
            Some(i) => i,
            None => {
                return Err(DeviceError::InvalidRawPath);
            },
        };
        let mut keyboard = KeyboardDevice::default();
        keyboard.path = Some(string_from_chars(&prefix_chars(&s, last_hash)));
        keyboard.name = name;
        match keyboard.extract_from_raw_path(path) {
            Ok(()) => Ok(keyboard),
            Err(e) => Err(e),
        }
    }
}

/// A sequence that holds `c` has a last `c`.
proof fn lemma_last_index_exists(s: Seq<char>, c: char)
    requires
        s.contains(c),
    ensures
        last_index_of(s, c) matches Some(i) && 0 <= i < s.len() && s[i] == c,
    decreases s.len(),
{
    if s.last() != c {
        let j = choose|j: int| 0 <= j < s.len() && s[j] == c;
        assert(s.drop_last()[j] == c);
        lemma_last_index_exists(s.drop_last(), c);
    }
}

/// The device path that the raw input API reports as device name: the
/// decoded UTF-16 units without trailing NUL characters.
pub fn device_path_from_units(units: &[u16]) -> (path: String)
    ensures
        path@ == trim_trailing_nul(decode_utf16_lossy(units@)),
{
    let decoded = decode_wide_lossy(units);
    let chars = chars_of(decoded.as_str());
    string_from_chars(&trim_trailing_nul_chars(&chars))
}

/// Whether a raw input device of this type is a keyboard.
pub fn is_keyboard_device(device_type: u32) -> (r: bool)
    ensures
        r == (device_type == RIM_TYPE_KEYBOARD),
{
    device_type == RIM_TYPE_KEYBOARD
}

/// Checks that the raw input API returned as many devices as it announced.
pub fn check_device_count(expected: u32, got: u32) -> (r: Result<(), DeviceError>)
    ensures
        r is Ok <==> expected == got,
        r is Err ==> (r matches Err(DeviceError::CountMismatch { expected: e, got: g }) && e
            == expected && g == got),
{
    if got != expected {
        Err(DeviceError::CountMismatch { expected, got })
    } else {
        Ok(())
    }
}

/// The message of a device error.
pub open spec fn device_error_message(e: DeviceError) -> Seq<char> {
    match e {
        DeviceError::InvalidRawPath => "Invalid raw device input path"@,
        DeviceError::CountMismatch { expected, got } => "Expected "@ + decimal_digits(
            expected as nat,
        ) + " device, got "@ + decimal_digits(got as nat),
    }
}

impl DeviceError {
    /// The text of the error.
    pub fn message(&self) -> (m: String)
        ensures
            m@ == device_error_message(*self),
    {
        match self {
            DeviceError::InvalidRawPath => String::from_str("Invalid raw device input path"),
            DeviceError::CountMismatch { expected, got } => {
                let mut m = String::from_str("Expected ");
                m.append(decimal_string(*expected as usize).as_str());
                m.append(" device, got ");
                m.append(decimal_string(*got as usize).as_str());
                m
            },
        }
    }
}

// ---------------------------------------------------------------------------
// The keyboard listing
// ---------------------------------------------------------------------------

/// The labelled properties of a keyboard that the listing shows, in order:
/// path, unique id, vendor, product and version, each when known.
pub open spec fn property_entries(k: KeyboardView) -> Seq<(Seq<char>, Seq<char>)> {
    (if k.path is Some {
        seq![("Path"@, k.path->0)]
    } else {
        Seq::empty()
    }) + (if k.id is Some {
        seq![("Unique ID"@, k.id->0)]
    } else {
        Seq::empty()
    }) + (if k.vendor is Some {
        seq![("Vendor"@, hex_display(k.vendor->0 as nat))]
    } else {
        Seq::empty()
    }) + (if k.product is Some {
        seq![("Product"@, hex_display(k.product->0 as nat))]
    } else {
        Seq::empty()
    }) + (if k.version is Some {
        seq![("Version"@, hex_display(k.version->0 as nat))]
    } else {
        Seq::empty()
    })
}

/// One property line: a branch for all but the last property, a corner for
/// the last one, then the label, a tab, a colon and the value.
pub open spec fn property_line(label: Seq<char>, value: Seq<char>, last: bool) -> Seq<char> {
    (if last {
        "  \u{2514}\u{2500} "@
    } else {
        "  \u{251C}\u{2500} "@
    }) + label + "\t: "@ + value
}

/// The property lines of a list of labelled values.
pub open spec fn property_lines(props: Seq<(Seq<char>, Seq<char>)>) -> Seq<Seq<char>> {
    Seq::new(props.len(), |i: int| property_line(props[i].0, props[i].1, i + 1 == props.len()))
}

/// The heading of a keyboard: its name, or `Unnamed` and the number of
/// unnamed keyboards listed before it.
pub open spec fn keyboard_heading(k: KeyboardView, unnamed_before: nat) -> Seq<char> {
    match k.name {
        Some(n) => "\u{2022} "@ + n,
        None => "\u{2022} Unnamed "@ + decimal_digits(unnamed_before),
    }
}

/// The lines of one keyboard: heading, property lines, an empty line.
pub open spec fn keyboard_block(k: KeyboardView, unnamed_before: nat) -> Seq<Seq<char>> {
    seq![keyboard_heading(k, unnamed_before)] + property_lines(property_entries(k)) + seq![
        Seq::empty(),
    ]
}

/// The number of keyboards without a name.
pub open spec fn unnamed_count(ks: Seq<KeyboardView>) -> nat
    decreases ks.len(),
{
    if ks.len() == 0 {
        0
    } else {
        unnamed_count(ks.drop_last()) + if ks.last().name is None {
            1nat
        } else {
            0nat
        }
    }
}

/// The lines of the listing of `ks`: the blocks of the keyboards in order.
pub open spec fn listing_lines(ks: Seq<KeyboardView>) -> Seq<Seq<char>>
    decreases ks.len(),
{
    if ks.len() == 0 {
        Seq::empty()
    } else {
        listing_lines(ks.drop_last()) + keyboard_block(ks.last(), unnamed_count(ks.drop_last()))
    }
}

/// The views of a vector of keyboards.
pub open spec fn keyboard_views(ks: Seq<KeyboardDevice>) -> Seq<KeyboardView> {
    ks.map_values(|k: KeyboardDevice| k@)
}

fn push_entry(entries: &mut Vec<(&'static str, String)>, label: &'static str, value: String)
    ensures
        final(entries)@.len() == old(entries)@.len() + 1,
        forall|i: int| 0 <= i < old(entries)@.len() ==> #[trigger] final(entries)@[i] == old(entries)@[i],
        final(entries)@[old(entries)@.len() as int].0@ == label@,
        final(entries)@[old(entries)@.len() as int].1@ == value@,
{
    entries.push((label, value));
}

/// The entries as plain views.
pub open spec fn entry_views(e: Seq<(&'static str, String)>) -> Seq<(Seq<char>, Seq<char>)> {
    e.map_values(|p: (&'static str, String)| (p.0@, p.1@))
}

fn property_entries_of(k: &KeyboardDevice) -> (r: Vec<(&'static str, String)>)
    ensures
        entry_views(r@) == property_entries(k@),
{
    let mut r: Vec<(&'static str, String)> = Vec::new();
    let ghost k_view = k@;
    let ghost a: Seq<(Seq<char>, Seq<char>)> = if k_view.path is Some {
        seq![("Path"@, k_view.path->0)]
    } else {
        Seq::empty()
    };
    let ghost b: Seq<(Seq<char>, Seq<char>)> = if k_view.id is Some {
        seq![("Unique ID"@, k_view.id->0)]
    } else {
        Seq::empty()
    };
    let ghost c: Seq<(Seq<char>, Seq<char>)> = if k_view.vendor is Some {
        seq![("Vendor"@, hex_display(k_view.vendor->0 as nat))]
    } else {
        Seq::empty()
    };
    let ghost d: Seq<(Seq<char>, Seq<char>)> = if k_view.product is Some {
        seq![("Product"@, hex_display(k_view.product->0 as nat))]
    } else {
        Seq::empty()
    };
    if let Some(path) = &k.path {
        push_entry(&mut r, "Path", path.clone());
    }
    assert(entry_views(r@) =~= a);
    if let Some(id) = &k.id {
        push_entry(&mut r, "Unique ID", id.clone());
    }
    assert(entry_views(r@) =~= a + b);
    if let Some(vendor) = k.vendor {
        push_entry(&mut r, "Vendor", hex_display_string(vendor));
    }
    assert(entry_views(r@) =~= a + b + c);
    if let Some(product) = k.product {
        push_entry(&mut r, "Product", hex_display_string(product));
    }
    assert(entry_views(r@) =~= a + b + c + d);
    if let Some(version) = k.version {
        push_entry(&mut r, "Version", hex_display_string(version));
    }
    assert(entry_views(r@) =~= property_entries(k@));
    r
}

fn keyboard_heading_of(k: &KeyboardDevice, unnamed_before: usize) -> (h: String)
    ensures
        h@ == keyboard_heading(k@, unnamed_before as nat),
{
    match &k.name {
        Some(n) => {
            let mut h = String::from_str("\u{2022} ");
            h.append(n.as_str());
            h
        },
        None => {
            let mut h = String::from_str("\u{2022} Unnamed ");
            h.append(decimal_string(unnamed_before).as_str());
            h
        },
    }
}

fn push_keyboard_block(lines: &mut Vec<String>, k: &KeyboardDevice, unnamed_before: usize)
    ensures
        string_views(final(lines)@) == string_views(old(lines)@) + keyboard_block(
            k@,
            unnamed_before as nat,
        ),
{
    let ghost start = string_views(lines@);
    lines.push(keyboard_heading_of(k, unnamed_before));
    assert(string_views(lines@) =~= start + seq![keyboard_heading(k@, unnamed_before as nat)]);
    let entries = property_entries_of(k);
    let ghost props = property_entries(k@);
    let n = entries.len();
    let mut i: usize = 0;
    while i < n
        invariant
            n == entries@.len(),
            entry_views(entries@) == props,
            i <= n,
            string_views(lines@) == start + seq![keyboard_heading(k@, unnamed_before as nat)]
                + property_lines(props).take(i as int),
        decreases n - i,
    {
        let mut line = if i + 1 < n {
            String::from_str("  \u{251C}\u{2500} ")
        } else {
            String::from_str("  \u{2514}\u{2500} ")
        };
        let entry = &entries[i];
        assert(entry.0@ == props[i as int].0 && entry.1@ == props[i as int].1);
        line.append(entry.0);
        line.append("\t: ");
        line.append(entry.1.as_str());
        assert(line@ == property_line(props[i as int].0, props[i as int].1, i + 1 == n));
        let ghost before = string_views(lines@);
        lines.push(line);
        assert(string_views(lines@) =~= before.push(line@));
        assert(property_lines(props).take(i + 1) =~= property_lines(props).take(i as int).push(
            line@,
        ));
        i = i + 1;
    }
    assert(property_lines(props).take(n as int) =~= property_lines(props));
    let ghost before = string_views(lines@);
    lines.push(String::new());
    assert(string_views(lines@) =~= before.push(Seq::empty()));
    assert(string_views(lines@) =~= start + keyboard_block(k@, unnamed_before as nat));
}

/// The lines that listing the keyboards prints, in order.
pub fn render_keyboard_list(keyboards: &Vec<KeyboardDevice>) -> (lines: Vec<String>)
    ensures
        string_views(lines@) == listing_lines(keyboard_views(keyboards@)),
{
    let ghost ks = keyboard_views(keyboards@);
    let mut lines: Vec<String> = Vec::new();
    let mut unnamed_idx: usize = 0;
    let n = keyboards.len();
    let mut i: usize = 0;
    while i < n
        invariant
            n == keyboards@.len(),
            ks == keyboard_views(keyboards@),
            i <= n,
            unnamed_idx as nat == unnamed_count(ks.take(i as int)),
            unnamed_idx <= i,
            string_views(lines@) == listing_lines(ks.take(i as int)),
        decreases n - i,
    {
        let k = &keyboards[i];
        assert(ks.take(i + 1).drop_last() =~= ks.take(i as int));
        assert(ks.take(i + 1).last() == k@);
        push_keyboard_block(&mut lines, k, unnamed_idx);
        if k.name.is_none() {
            unnamed_idx = unnamed_idx + 1;
        }
        i = i + 1;
    }
    assert(ks.take(n as int) =~= ks);
    lines
}


// ---------------------------------------------------------------------------
// Laws
// ---------------------------------------------------------------------------

/// The block of each keyboard, in order, with the number of unnamed
/// keyboards listed before it.
pub open spec fn listing_blocks(ks: Seq<KeyboardView>) -> Seq<Seq<Seq<char>>> {
    Seq::new(ks.len(), |i: int| keyboard_block(ks[i], unnamed_count(ks.take(i))))
}

/// The listing is the blocks of the keyboards one after the other, each
/// unnamed keyboard numbered by how many unnamed keyboards come before it.
pub proof fn law_listing_is_blocks_in_order(ks: Seq<KeyboardView>)
    ensures
        listing_lines(ks) == listing_blocks(ks).flatten(),
    decreases ks.len(),
{
    listing_blocks(ks).lemma_flatten_and_flatten_alt_are_equivalent();
    if ks.len() > 0 {
        law_listing_is_blocks_in_order(ks.drop_last());
        listing_blocks(ks.drop_last()).lemma_flatten_and_flatten_alt_are_equivalent();
        assert(listing_blocks(ks).drop_last() =~= listing_blocks(ks.drop_last())) by {
            assert forall|i: int| 0 <= i < ks.len() - 1 implies ks.drop_last().take(i) =~= ks.take(
                i,
            ) by {}
        }
        assert(ks.take(ks.len() - 1) =~= ks.drop_last());
        assert(listing_blocks(ks).last() == keyboard_block(ks.last(), unnamed_count(ks.drop_last())));
    } else {
        assert(listing_blocks(ks) =~= Seq::<Seq<Seq<char>>>::empty());
    }
}

proof fn lemma_unnamed_count_prefix(ks: Seq<KeyboardView>, i: int, j: int)
    requires
        0 <= i <= j <= ks.len(),
    ensures
        unnamed_count(ks.take(i)) <= unnamed_count(ks.take(j)),
        i < j && ks[i].name is None ==> unnamed_count(ks.take(i)) < unnamed_count(ks.take(j)),
    decreases j - i,
{
    if i < j {
        lemma_unnamed_count_prefix(ks, i, j - 1);
        assert(ks.take(j).drop_last() =~= ks.take(j - 1));
        if j - 1 == i {
            assert(ks.take(j).last() == ks[i]);
        }
    }
}

/// Two different unnamed keyboards never get the same number: numbers grow
/// along the listing.
pub proof fn law_unnamed_numbers_increase(ks: Seq<KeyboardView>, i: int, j: int)
    requires
        0 <= i < j < ks.len(),
        ks[i].name is None,
        ks[j].name is None,
    ensures
        unnamed_count(ks.take(i)) < unnamed_count(ks.take(j)),
{
    lemma_unnamed_count_prefix(ks, i, j);
}


/// The position of a property label in the listing order: path, unique id,
/// vendor, product, version; 5 for any other text.
pub open spec fn label_rank(l: Seq<char>) -> int {
    if l == "Path"@ {
        0
    } else if l == "Unique ID"@ {
        1
    } else if l == "Vendor"@ {
        2
    } else if l == "Product"@ {
        3
    } else if l == "Version"@ {
        4
    } else {
        5
    }
}

/// Some entry carries label `l`.
pub open spec fn has_label(s: Seq<(Seq<char>, Seq<char>)>, l: Seq<char>) -> bool {
    exists|i: int| 0 <= i < s.len() && #[trigger] s[i].0 == l
}

/// Every entry with label `l` has value `v`.
pub open spec fn label_has_value(s: Seq<(Seq<char>, Seq<char>)>, l: Seq<char>, v: Seq<char>) -> bool {
    forall|i: int| 0 <= i < s.len() && #[trigger] s[i].0 == l ==> s[i].1 == v
}

/// The labels strictly follow the listing order (so none repeats), and each
/// is one of the five property labels.
pub open spec fn labels_in_order(s: Seq<(Seq<char>, Seq<char>)>) -> bool {
    &&& forall|i: int, j: int|
        0 <= i < j < s.len() ==> label_rank(#[trigger] s[i].0) < label_rank(#[trigger] s[j].0)
    &&& forall|i: int| 0 <= i < s.len() ==> label_rank(#[trigger] s[i].0) < 5
}

proof fn lemma_labels_distinct()
    ensures
        label_rank("Path"@) == 0,
        label_rank("Unique ID"@) == 1,
        label_rank("Vendor"@) == 2,
        label_rank("Product"@) == 3,
        label_rank("Version"@) == 4,
{
    reveal_strlit("Path");
    reveal_strlit("Unique ID");
    reveal_strlit("Vendor");
    reveal_strlit("Product");
    reveal_strlit("Version");
    assert("Unique ID"@ != "Path"@) by {
        assert("Unique ID"@.len() != "Path"@.len());
    }
    assert("Vendor"@ != "Path"@) by {
        assert("Vendor"@.len() != "Path"@.len());
    }
    assert("Vendor"@ != "Unique ID"@) by {
        assert("Vendor"@.len() != "Unique ID"@.len());
    }
    assert("Product"@ != "Path"@) by {
        assert("Product"@.len() != "Path"@.len());
    }
    assert("Product"@ != "Unique ID"@) by {
        assert("Product"@.len() != "Unique ID"@.len());
    }
    assert("Product"@ != "Vendor"@) by {
        assert("Product"@.len() != "Vendor"@.len());
    }
    assert("Version"@ != "Path"@) by {
        assert("Version"@.len() != "Path"@.len());
    }
    assert("Version"@ != "Unique ID"@) by {
        assert("Version"@.len() != "Unique ID"@.len());
    }
    assert("Version"@ != "Vendor"@) by {
        assert("Version"@.len() != "Vendor"@.len());
    }
    assert("Version"@ != "Product"@) by {
        assert("Version"@[0] != "Product"@[0]);
    }
}

/// An entry list of at most one entry, with label `l` and value `v` when
/// `present`.
pub open spec fn optional_entry(present: bool, l: Seq<char>, v: Seq<char>) -> Seq<(Seq<char>, Seq<char>)> {
    if present {
        seq![(l, v)]
    } else {
        Seq::empty()
    }
}

proof fn lemma_append_optional(
    s: Seq<(Seq<char>, Seq<char>)>,
    present: bool,
    l: Seq<char>,
    v: Seq<char>,
)
    requires
        labels_in_order(s),
        forall|i: int| 0 <= i < s.len() ==> label_rank(#[trigger] s[i].0) < label_rank(l),
        label_rank(l) < 5,
    ensures
        labels_in_order(s + optional_entry(present, l, v)),
        forall|m: Seq<char>|
            #[trigger] has_label(s + optional_entry(present, l, v), m) == (has_label(s, m) || (
            present && m == l)),
        forall|m: Seq<char>, w: Seq<char>|
            #[trigger] label_has_value(s + optional_entry(present, l, v), m, w) == (
            label_has_value(s, m, w) && (present && m == l ==> w == v)),
{
    let t = s + optional_entry(present, l, v);
    if present {
        assert(t.len() == s.len() + 1);
        assert(t[s.len() as int] == (l, v));
        assert forall|i: int| 0 <= i < s.len() implies t[i] == s[i] by {}
        assert forall|m: Seq<char>| #[trigger] has_label(t, m) == (has_label(s, m) || (present && m
            == l)) by {
            if has_label(s, m) {
                let i = choose|i: int| 0 <= i < s.len() && #[trigger] s[i].0 == m;
                assert(t[i].0 == m);
            }
            if has_label(t, m) {
                let i = choose|i: int| 0 <= i < t.len() && #[trigger] t[i].0 == m;
                if i < s.len() {
                    assert(s[i].0 == m);
                }
            }
            if m == l {
                assert(t[s.len() as int].0 == m);
            }
        }
        assert forall|m: Seq<char>, w: Seq<char>| #[trigger] label_has_value(t, m, w) == (
        label_has_value(s, m, w) && (present && m == l ==> w == v)) by {
            if label_has_value(t, m, w) {
                assert forall|i: int| 0 <= i < s.len() && #[trigger] s[i].0 == m implies s[i].1
                    == w by {
                    assert(t[i] == s[i]);
                }
                if m == l {
                    assert(t[s.len() as int].0 == m);
                }
            }
            if label_has_value(s, m, w) && (present && m == l ==> w == v) {
                assert forall|i: int| 0 <= i < t.len() && #[trigger] t[i].0 == m implies t[i].1
                    == w by {
                    if i < s.len() {
                        assert(t[i] == s[i]);
                    }
                }
            }
        }
    } else {
        assert(t =~= s);
    }
}

/// The properties that the listing shows of a keyboard: each of path, unique
/// id, vendor, product and version appears exactly when the keyboard has it,
/// under its own label and with its own value (numbers as `{:#06x}`), in that
/// order and at most once each.
pub proof fn law_property_entries(k: KeyboardView)
    ensures
        labels_in_order(property_entries(k)),
        has_label(property_entries(k), "Path"@) == k.path is Some,
        has_label(property_entries(k), "Unique ID"@) == k.id is Some,
        has_label(property_entries(k), "Vendor"@) == k.vendor is Some,
        has_label(property_entries(k), "Product"@) == k.product is Some,
        has_label(property_entries(k), "Version"@) == k.version is Some,
        k.path is Some ==> label_has_value(property_entries(k), "Path"@, k.path->0),
        k.id is Some ==> label_has_value(property_entries(k), "Unique ID"@, k.id->0),
        k.vendor is Some ==> label_has_value(
            property_entries(k),
            "Vendor"@,
            hex_display(k.vendor->0 as nat),
        ),
        k.product is Some ==> label_has_value(
            property_entries(k),
            "Product"@,
            hex_display(k.product->0 as nat),
        ),
        k.version is Some ==> label_has_value(
            property_entries(k),
            "Version"@,
            hex_display(k.version->0 as nat),
        ),
{
    lemma_labels_distinct();
    let e0: Seq<(Seq<char>, Seq<char>)> = Seq::empty();
    let pv = if k.path is Some { k.path->0 } else { Seq::empty() };
    let iv = if k.id is Some { k.id->0 } else { Seq::empty() };
    let vv = if k.vendor is Some { hex_display(k.vendor->0 as nat) } else { Seq::empty() };
    let dv = if k.product is Some { hex_display(k.product->0 as nat) } else { Seq::empty() };
    let rv = if k.version is Some { hex_display(k.version->0 as nat) } else { Seq::empty() };
    let e1 = e0 + optional_entry(k.path is Some, "Path"@, pv);
    let e2 = e1 + optional_entry(k.id is Some, "Unique ID"@, iv);
    let e3 = e2 + optional_entry(k.vendor is Some, "Vendor"@, vv);
    let e4 = e3 + optional_entry(k.product is Some, "Product"@, dv);
    let e5 = e4 + optional_entry(k.version is Some, "Version"@, rv);
    assert(!has_label(e0, "Path"@) && !has_label(e0, "Unique ID"@) && !has_label(e0, "Vendor"@)
        && !has_label(e0, "Product"@) && !has_label(e0, "Version"@));
    lemma_append_optional(e0, k.path is Some, "Path"@, pv);
    lemma_append_optional(e1, k.id is Some, "Unique ID"@, iv);
    lemma_append_optional(e2, k.vendor is Some, "Vendor"@, vv);
    lemma_append_optional(e3, k.product is Some, "Product"@, dv);
    lemma_append_optional(e4, k.version is Some, "Version"@, rv);
    assert(e5 =~= property_entries(k));
}

/// The lines of a keyboard's block: its heading, one line per property in
/// order, written as a branch (or, for the last, a corner), the label, a tab,
/// a colon and the value, and an empty line. In particular a keyboard with a
/// product id shows it on a `Product` line, and one with a vendor id on a
/// `Vendor` line.
pub proof fn law_keyboard_block_lines(k: KeyboardView, unnamed_before: nat)
    ensures
        ({
            let b = keyboard_block(k, unnamed_before);
            let props = property_entries(k);
            &&& b.len() == props.len() + 2
            &&& b[0] == keyboard_heading(k, unnamed_before)
            &&& b[b.len() - 1] == Seq::<char>::empty()
            &&& forall|i: int|
                0 <= i < props.len() ==> #[trigger] b[i + 1] == (if i + 1 == props.len() {
                    "  \u{2514}\u{2500} "@
                } else {
                    "  \u{251C}\u{2500} "@
                }) + props[i].0 + "\t: "@ + props[i].1
        }),
        k.product is Some ==> exists|i: int|
            1 <= i < keyboard_block(k, unnamed_before).len() - 1 && (#[trigger] keyboard_block(
                k,
                unnamed_before,
            )[i] == "  \u{2514}\u{2500} "@ + "Product"@ + "\t: "@ + hex_display(k.product->0 as nat)
                || keyboard_block(k, unnamed_before)[i] == "  \u{251C}\u{2500} "@ + "Product"@
                + "\t: "@ + hex_display(k.product->0 as nat)),
        k.vendor is Some ==> exists|i: int|
            1 <= i < keyboard_block(k, unnamed_before).len() - 1 && (#[trigger] keyboard_block(
                k,
                unnamed_before,
            )[i] == "  \u{2514}\u{2500} "@ + "Vendor"@ + "\t: "@ + hex_display(k.vendor->0 as nat)
                || keyboard_block(k, unnamed_before)[i] == "  \u{251C}\u{2500} "@ + "Vendor"@
                + "\t: "@ + hex_display(k.vendor->0 as nat)),
{
    law_property_entries(k);
    let b = keyboard_block(k, unnamed_before);
    let props = property_entries(k);
    assert forall|i: int| 0 <= i < props.len() implies #[trigger] b[i + 1] == (if i + 1
        == props.len() {
        "  \u{2514}\u{2500} "@
    } else {
        "  \u{251C}\u{2500} "@
    }) + props[i].0 + "\t: "@ + props[i].1 by {
        assert(b[i + 1] == property_lines(props)[i]);
    }
    if k.product is Some {
        let i = choose|i: int| 0 <= i < props.len() && #[trigger] props[i].0 == "Product"@;
        assert(b[i + 1] == property_lines(props)[i]);
    }
    if k.vendor is Some {
        let i = choose|i: int| 0 <= i < props.len() && #[trigger] props[i].0 == "Vendor"@;
        assert(b[i + 1] == property_lines(props)[i]);
    }
}

} // verus!
