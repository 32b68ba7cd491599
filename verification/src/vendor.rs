//! The vendor registry: which manufacturer a hardware address belongs to.
//!
//! The registry is a text of blocks. A line that holds `(hex)` opens a
//! block and gives its prefix as the first word; a later line that holds
//! `base 16` gives the manufacturer's name from the fourth word on.

use vstd::prelude::*;
use vstd::hash_map::StringHashMap;
use crate::addr::HardwareAddress;
use crate::text::{
    chars_of, contains, contains_text, join_from, joined, remove_char, split_words, string_of,
    to_uppercase, upper, views, without, words,
};

verus! {

/// The mark of a line that opens a block.
pub open spec fn hex_marker() -> Seq<char> {
    seq!['(', 'h', 'e', 'x', ')']
}

/// The mark of a line that names a block.
pub open spec fn base16_marker() -> Seq<char> {
    seq!['b', 'a', 's', 'e', ' ', '1', '6']
}

/// Whether a line opens a block: it holds `(hex)` and at least three words.
pub open spec fn opens_block(line: Seq<char>) -> bool {
    contains_text(line, hex_marker()) && words(line).len() >= 3
}

/// Whether a line names a block: it holds `base 16`, not `(hex)`, and at
/// least four words.
pub open spec fn names_block(line: Seq<char>) -> bool {
    !contains_text(line, hex_marker()) && contains_text(line, base16_marker()) && words(
        line,
    ).len() >= 4
}

/// The key under which a block is filed: its first word without hyphens,
/// in upper case.
pub open spec fn block_key(line: Seq<char>) -> Seq<char> {
    upper(without(words(line)[0], '-'))
}

/// The name that a line gives: its words from the fourth on, one blank
/// between them.
pub open spec fn block_name(line: Seq<char>) -> Seq<char> {
    joined(words(line).skip(3))
}

/// What a line of the registry says.
#[derive(Clone, Debug, PartialEq, Eq)]
pub enum RegistryLine {
    /// The line opens a block; this is its first word.
    Block(Vec<char>),
    /// The line names the open block; this is the name.
    Name(Vec<char>),
    /// The line says nothing.
    Other,
}

/// Reads one line of the registry.
pub fn classify_line(line: &str) -> (r: RegistryLine)
    ensures
        match r {
            RegistryLine::Block(word) => opens_block(line@) && word@ == words(line@)[0],
            RegistryLine::Name(name) => names_block(line@) && name@ == block_name(line@),
            RegistryLine::Other => !opens_block(line@) && !names_block(line@),
        },
{
    let chars = chars_of(line);
    let hex: Vec<char> = vec!['(', 'h', 'e', 'x', ')'];
    let base16: Vec<char> = vec!['b', 'a', 's', 'e', ' ', '1', '6'];
    assert(hex@ =~= hex_marker());
    assert(base16@ =~= base16_marker());
    if contains(&chars, &hex) {
        let parts = split_words(&chars);
        assert(views(parts@).len() == parts@.len());
        if parts.len() >= 3 {
            assert(views(parts@)[0] == parts@[0]@);
            RegistryLine::Block(parts[0].clone())
        } else {
            RegistryLine::Other
        }
    } else if contains(&chars, &base16) {
        let parts = split_words(&chars);
        assert(views(parts@).len() == parts@.len());
        if parts.len() >= 4 {
            RegistryLine::Name(join_from(&parts, 3))
        } else {
            RegistryLine::Other
        }
    } else {
        RegistryLine::Other
    }
}

/// The key of a block whose first word is `word`.
pub fn key_of_word(word: &Vec<char>) -> (r: Vec<char>)
    ensures
        r@ == upper(without(word@, '-')),
{
    let bare = remove_char(word, '-');
    to_uppercase(&bare)
}

/// How far a registry has been read: the key of the open block, empty
/// where none is open, and the names filed so far.
pub struct RegistryState {
    pub current: Seq<char>,
    pub table: Map<Seq<char>, Seq<char>>,
}

/// The state before the first line.
pub open spec fn initial_state() -> RegistryState {
    RegistryState { current: Seq::empty(), table: Map::empty() }
}

/// The state after a block with the given key was opened.
pub open spec fn after_block(state: RegistryState, key: Seq<char>) -> RegistryState {
    RegistryState { current: key, table: state.table }
}

/// The state after a name was given: it is filed under the open block,
/// in place of an earlier name, or dropped where no block is open.
pub open spec fn after_name(state: RegistryState, name: Seq<char>) -> RegistryState {
    if state.current.len() > 0 {
        RegistryState { current: state.current, table: state.table.insert(state.current, name) }
    } else {
        state
    }
}

/// The state after one more line.
pub open spec fn after_line(state: RegistryState, line: Seq<char>) -> RegistryState {
    if opens_block(line) {
        after_block(state, block_key(line))
    } else if names_block(line) {
        after_name(state, block_name(line))
    } else {
        state
    }
}

/// The state after the given lines, read in order.
pub open spec fn after_lines(state: RegistryState, lines: Seq<Seq<char>>) -> RegistryState
    decreases lines.len(),
{
    if lines.len() == 0 {
        state
    } else {
        after_line(after_lines(state, lines.drop_last()), lines.last())
    }
}

/// The names in a table of strings.
pub open spec fn names_of(table: Map<Seq<char>, String>) -> Map<Seq<char>, Seq<char>> {
    Map::new(|k: Seq<char>| table.contains_key(k), |k: Seq<char>| table[k]@)
}

/// The texts of a sequence of strings.
pub open spec fn texts(lines: Seq<String>) -> Seq<Seq<char>> {
    lines.map_values(|l: String| l@)
}

/// Reads a registry line by line.
pub struct RegistryReader {
    current: Vec<char>,
    table: StringHashMap<String>,
}

impl View for RegistryReader {
    type V = RegistryState;

    closed spec fn view(&self) -> RegistryState {
        RegistryState { current: self.current@, table: names_of(self.table@) }
    }
}

impl RegistryReader {
    /// A reader that has read nothing yet.
    pub fn new() -> (r: RegistryReader)
        ensures
            r@ == initial_state(),
    {
        let r = RegistryReader { current: Vec::new(), table: StringHashMap::new() };
        assert(r@.table =~= Map::<Seq<char>, Seq<char>>::empty());
        r
    }

    /// Opens the block with the given key.
    pub fn open_block(&mut self, key: Vec<char>)
        ensures
            final(self)@ == after_block(old(self)@, key@),
    {
        self.current = key;
    }

    /// Files a name under the open block, if one is open.
    pub fn name_block(&mut self, name: &Vec<char>)
        ensures
            final(self)@ == after_name(old(self)@, name@),
    {
        if self.current.len() > 0 {
            let key = string_of(&self.current);
            let value = string_of(name);
            self.table.insert(key, value);
            assert(names_of(self.table@) =~= names_of(old(self).table@).insert(
                self.current@,
                name@,
            ));
        }
    }

    /// Reads the next line.
    pub fn read_line(&mut self, line: &str)
        ensures
            final(self)@ == after_line(old(self)@, line@),
    {
        match classify_line(line) {
            RegistryLine::Block(word) => {
                let key = key_of_word(&word);
                self.open_block(key);
            },
            RegistryLine::Name(name) => {
                self.name_block(&name);
            },
            RegistryLine::Other => {},
        }
    }

    /// The registry that the lines read so far make.
    pub fn finish(self) -> (r: VendorRegistry)
        ensures
            r@ == self@.table,
    {
        VendorRegistry { table: self.table }
    }
}

/// Manufacturer names by address prefix.
pub struct VendorRegistry {
    table: StringHashMap<String>,
}

impl View for VendorRegistry {
    type V = Map<Seq<char>, Seq<char>>;

    closed spec fn view(&self) -> Map<Seq<char>, Seq<char>> {
        names_of(self.table@)
    }
}

/// The upper-case hexadecimal digit for a number below 16.
pub open spec fn hex_digit(n: int) -> char {
    seq!['0', '1', '2', '3', '4', '5', '6', '7', '8', '9', 'A', 'B', 'C', 'D', 'E', 'F'][n]
}

/// The two upper-case hexadecimal digits of a byte.
pub open spec fn hex_pair(b: u8) -> Seq<char> {
    seq![hex_digit(b as int / 16), hex_digit(b as int % 16)]
}

/// The key under which the manufacturer of an address is filed: the six
/// upper-case hexadecimal digits of its first three bytes.
pub open spec fn prefix_key(mac: Seq<u8>) -> Seq<char> {
    hex_pair(mac[0]) + hex_pair(mac[1]) + hex_pair(mac[2])
}

/// The name given where the registry does not know an address.
pub open spec fn unknown_name() -> Seq<char> {
    "Unknown"@
}

/// The manufacturer of an address according to a table of names.
pub open spec fn manufacturer_of(table: Map<Seq<char>, Seq<char>>, mac: Seq<u8>) -> Seq<char> {
    if table.contains_key(prefix_key(mac)) {
        table[prefix_key(mac)]
    } else {
        unknown_name()
    }
}

/// Whether a character is a digit or one of the letters `A` to `F`.
pub open spec fn is_upper_hex(c: char) -> bool {
    ('0' <= c <= '9') || ('A' <= c <= 'F')
}

/// The key of an address is six upper-case hexadecimal digits, and the
/// first three bytes of the address decide it.
pub proof fn lemma_prefix_key(mac: Seq<u8>, other: Seq<u8>)
    requires
        mac.len() == 6,
        other.len() == 6,
    ensures
        prefix_key(mac).len() == 6,
        forall|i: int| 0 <= i < 6 ==> is_upper_hex(#[trigger] prefix_key(mac)[i]),
        prefix_key(mac) == prefix_key(other) <==> mac.subrange(0, 3) == other.subrange(0, 3),
{
    let digits = seq!['0', '1', '2', '3', '4', '5', '6', '7', '8', '9', 'A', 'B', 'C', 'D', 'E', 'F'];
    assert forall|n: int| 0 <= n < 16 implies is_upper_hex(#[trigger] hex_digit(n)) by {
        assert(hex_digit(n) == digits[n]);
    }
    assert forall|m: int, n: int| 0 <= m < 16 && 0 <= n < 16 && hex_digit(m) == hex_digit(
        n,
    ) implies m == n by {
        assert(hex_digit(m) == digits[m]);
        assert(hex_digit(n) == digits[n]);
    }
    let k = prefix_key(mac);
    let l = prefix_key(other);
    assert forall|i: int| 0 <= i < 6 implies is_upper_hex(#[trigger] k[i]) by {
        let b = mac[i / 2] as int;
        assert(k[i] == if i % 2 == 0 { hex_digit(b / 16) } else { hex_digit(b % 16) });
    }
    if mac.subrange(0, 3) == other.subrange(0, 3) {
        assert forall|j: int| 0 <= j < 3 implies mac[j] == other[j] by {
            assert(mac.subrange(0, 3)[j] == other.subrange(0, 3)[j]);
        }
        assert(k =~= l);
    }
    if k == l {
        assert forall|j: int| 0 <= j < 3 implies mac[j] == other[j] by {
            let a = mac[j] as int;
            let b = other[j] as int;
            assert(k[2 * j] == hex_digit(a / 16) && l[2 * j] == hex_digit(b / 16));
            assert(k[2 * j + 1] == hex_digit(a % 16) && l[2 * j + 1] == hex_digit(b % 16));
            assert(a / 16 == b / 16 && a % 16 == b % 16);
        }
        assert(mac.subrange(0, 3) =~= other.subrange(0, 3));
    }
}

/// An address whose prefix has no name is of unknown make; with an empty
/// table that holds of every address.
pub proof fn lemma_absent_is_unknown(table: Map<Seq<char>, Seq<char>>, mac: Seq<u8>)
    ensures
        !table.contains_key(prefix_key(mac)) ==> manufacturer_of(table, mac) == unknown_name(),
        manufacturer_of(Map::empty(), mac) == unknown_name(),
{
}

/// Of two names given to one block the later one stays, as if the earlier
/// one had never been given.
pub proof fn lemma_later_name_stays(state: RegistryState, first: Seq<char>, second: Seq<char>)
    ensures
        after_name(after_name(state, first), second) == after_name(state, second),
{
    if state.current.len() > 0 {
        assert(state.table.insert(state.current, first).insert(state.current, second)
            =~= state.table.insert(state.current, second));
    }
}

/// A line that opens a block and a line that names it, read one after the
/// other, file the name under the block's key, and from then on every
/// address with that key is of that make.
pub proof fn lemma_block_then_name(
    state: RegistryState,
    opening: Seq<char>,
    naming: Seq<char>,
    mac: Seq<u8>,
)
    requires
        opens_block(opening),
        names_block(naming),
        block_key(opening).len() > 0,
    ensures
        ({
            let then = after_lines(state, seq![opening, naming]);
            &&& then.current == block_key(opening)
            &&& then.table == state.table.insert(block_key(opening), block_name(naming))
            &&& prefix_key(mac) == block_key(opening) ==> manufacturer_of(then.table, mac)
                == block_name(naming)
        }),
{
    reveal_with_fuel(after_lines, 3);
    let lines = seq![opening, naming];
    assert(lines.drop_last() =~= seq![opening]);
    assert(seq![opening].drop_last() =~= Seq::<Seq<char>>::empty());
    assert(after_lines(state, lines) == after_line(after_line(state, opening), naming));
}

/// A line that is neither the opening of a block nor its name leaves the
/// registry as it is, and so does a name where no block is open.
pub proof fn lemma_idle_lines(state: RegistryState, line: Seq<char>)
    ensures
        !opens_block(line) && !names_block(line) ==> after_line(state, line) == state,
        !opens_block(line) && state.current.len() == 0 ==> after_line(state, line) == state,
        after_line(state, line).table.dom().subset_of(state.table.dom().insert(state.current)),
{
}

fn hex_char(n: u8) -> (r: char)
    requires
        n < 16,
    ensures
        r == hex_digit(n as int),
{
    match n {
        0 => '0',
        1 => '1',
        2 => '2',
        3 => '3',
        4 => '4',
        5 => '5',
        6 => '6',
        7 => '7',
        8 => '8',
        9 => '9',
        10 => 'A',
        11 => 'B',
        12 => 'C',
        13 => 'D',
        14 => 'E',
        _ => 'F',
    }
}

/// The key under which the manufacturer of `mac` is filed.
pub fn key_of_address(mac: &HardwareAddress) -> (r: Vec<char>)
    ensures
        r@ == prefix_key(mac@),
{
    let mut key: Vec<char> = Vec::new();
    let mut i: usize = 0;
    while i < 3
        invariant
            i <= 3,
            key@.len() == 2 * i,
            forall|j: int| 0 <= j < i ==> key@.subrange(2 * j, 2 * j + 2) == hex_pair(mac@[j]),
        decreases 3 - i,
    {
        let b = mac.bytes[i];
        let ghost before = key@;
        key.push(hex_char(b / 16));
        key.push(hex_char(b % 16));
        assert(key@.subrange(2 * i, 2 * i + 2) =~= hex_pair(mac@[i as int]));
        assert forall|j: int| 0 <= j < i implies key@.subrange(2 * j, 2 * j + 2) == hex_pair(
            mac@[j],
        ) by {
            assert(key@.subrange(2 * j, 2 * j + 2) =~= before.subrange(2 * j, 2 * j + 2));
        }
        i += 1;
    }
    assert(key@ =~= key@.subrange(0, 2) + key@.subrange(2, 4) + key@.subrange(4, 6));
    key
}

impl VendorRegistry {
    /// The registry that knows no manufacturer.
    pub fn empty() -> (r: VendorRegistry)
        ensures
            r@ == Map::<Seq<char>, Seq<char>>::empty(),
    {
        RegistryReader::new().finish()
    }

    /// Builds the registry from the lines of a registry file. Where the
    /// file could not be had, the registry is empty, and every lookup
    /// misses: a scan goes on without manufacturer names.
    pub fn load(source: Option<&Vec<String>>) -> (r: VendorRegistry)
        ensures
            r@ == match source {
                Some(lines) => after_lines(initial_state(), texts(lines@)).table,
                None => Map::<Seq<char>, Seq<char>>::empty(),
            },
    {
        match source {
            None => VendorRegistry::empty(),
            Some(lines) => {
                let mut reader = RegistryReader::new();
                let mut i: usize = 0;
                while i < lines.len()
                    invariant
                        i <= lines@.len(),
                        reader@ == after_lines(initial_state(), texts(lines@).take(i as int)),
                    decreases lines@.len() - i,
                {
                    proof {
                        assert(texts(lines@).take(i + 1).drop_last() =~= texts(lines@).take(
                            i as int,
                        ));
                        assert(texts(lines@).take(i + 1).last() == lines@[i as int]@);
                    }
                    reader.read_line(lines[i].as_str());
                    i += 1;
                }
                assert(texts(lines@).take(lines@.len() as int) =~= texts(lines@));
                reader.finish()
            },
        }
    }

    /// The number of prefixes with a name.
    pub fn len(&self) -> (r: usize)
        ensures
            r == self@.dom().len(),
    {
        broadcast use vstd::hash_map::group_hash_map_axioms;

        assert(self@.dom() =~= self.table@.dom());
        self.table.len()
    }

    /// The manufacturer filed for the prefix of `mac`, if there is one.
    pub fn lookup(&self, mac: &HardwareAddress) -> (r: Option<String>)
        ensures
            r is Some <==> self@.contains_key(prefix_key(mac@)),
            r is Some ==> r->0@ == self@[prefix_key(mac@)],
    {
        let key = string_of(&key_of_address(mac));
        match self.table.get(key.as_str()) {
            Some(name) => Some(name.clone()),
            None => None,
        }
    }
}

/// The manufacturer of `mac`, or `Unknown` where the registry has no name
/// for its prefix.
pub fn get_manufacturer(registry: &VendorRegistry, mac: &HardwareAddress) -> (r: String)
    ensures
        r@ == manufacturer_of(registry@, mac@),
{
    match registry.lookup(mac) {
        Some(name) => name,
        None => String::from_str("Unknown"),
    }
}

} // verus!
