//! Finding bulbs on the LAN: the search request, and what the bulbs answer.
use crate::entries::{
    at_most_once, find_last, last_value, lemma_last_at, lemma_no_value, lemma_order_is_free,
    lemma_other_key,
};
use crate::error::YeelightError;
use crate::state::{byte_number, lemma_tells_number, tells_number};
use crate::text::{
    after_prefix, all_white, cut, decimal, is_tight, is_white, lemma_after_prefix, lemma_cut,
    lemma_decimal_reads_back, lemma_digits_only, lemma_first_line, lemma_first_word,
    lemma_last_line, lemma_lowered, lemma_no_cut, lemma_no_words, lemma_trimmed_core,
    lemma_value_is_natural, lines, lines_of, lowered, none_white, opt_clone, opt_str_view,
    opt_to_owned, opt_view, parse_unsigned, same_text, slices_view, split_once, strings_clone,
    strings_view, strip_prefix, to_lowercase, trim, trimmed, unsigned_value, words, words_of,
};
use vstd::prelude::*;
use vstd::seq_lib::lemma_multiset_commutative;
use vstd::utf8::{
    decode_utf8, encode_utf8, encode_utf8_decode_utf8, encode_utf8_valid_utf8, is_ascii_chars,
    valid_utf8,
};

verus! {

/// Where the search request goes.
pub const MULTICAST_ADDR: &'static str = "239.255.255.250:1982";

/// The search request. The protocol wants the double quotes around the `MAN` value.
pub const SEARCH_MSG: &'static str =
    "M-SEARCH * HTTP/1.1\r\nHOST: 239.255.255.250:1982\r\n\
    MAN: \"ssdp:discover\"\r\nST: wifi_bulb\r\n\r\n";

/// The address of a bulb: an IP address and a TCP port.
#[derive(Debug, Clone, Copy, PartialEq, Eq, Structural)]
pub enum DeviceAddr {
    V4 { ipv4: u32, port: u16 },
    V6 { ipv6: u128, port: u16, flow_info: u32, scope_id: u32 },
}

/// What a bulb says of itself when it answers a search.
#[derive(Debug)]
pub struct Announcement {
    /// The address of the bulb, as it writes it: `ip:port`.
    pub addr: String,
    pub id: Option<String>,
    pub model: Option<String>,
    pub fw_ver: Option<String>,
    pub power: Option<bool>,
    pub brightness: Option<u8>,
    pub name: Option<String>,
    /// List of method names supported by this device.
    pub supported_methods: Vec<String>,
}

/// An announcement, as contracts speak of it.
#[verifier::ext_equal]
pub struct AnnouncementView {
    pub addr: Seq<char>,
    pub id: Option<Seq<char>>,
    pub model: Option<Seq<char>>,
    pub fw_ver: Option<Seq<char>>,
    pub power: Option<bool>,
    pub brightness: Option<u8>,
    pub name: Option<Seq<char>>,
    pub supported_methods: Seq<Seq<char>>,
}

impl View for Announcement {
    type V = AnnouncementView;

    open spec fn view(&self) -> AnnouncementView {
        AnnouncementView {
            addr: self.addr@,
            id: opt_view(self.id),
            model: opt_view(self.model),
            fw_ver: opt_view(self.fw_ver),
            power: self.power,
            brightness: self.brightness,
            name: opt_view(self.name),
            supported_methods: strings_view(self.supported_methods@),
        }
    }
}

/// Named values, as contracts speak of them.
pub open spec fn headers_view(headers: Seq<(String, String)>) -> Seq<(Seq<char>, Seq<char>)> {
    headers.map_values(|header: (String, String)| (header.0@, header.1@))
}

/// The headers that one line holds, if it is one of headers: a line that is not blank has a
/// colon, with the name before the first one, in any case, and the value after it. White space
/// around lines, names and values does not count, and a blank line holds no header.
pub open spec fn headers_on(line: Seq<char>) -> Option<Seq<(Seq<char>, Seq<char>)>> {
    if trimmed(line).len() == 0 {
        Some(Seq::empty())
    } else {
        match cut(trimmed(line), ':') {
            Some((name, value)) => Some(seq![(lowered(trimmed(name)), trimmed(value))]),
            None => None,
        }
    }
}

/// The headers of two parts of an answer, one part after the other.
pub open spec fn both(
    a: Option<Seq<(Seq<char>, Seq<char>)>>,
    b: Option<Seq<(Seq<char>, Seq<char>)>>,
) -> Option<Seq<(Seq<char>, Seq<char>)>> {
    match (a, b) {
        (Some(a), Some(b)) => Some(a + b),
        _ => None,
    }
}

/// The headers that `lines` hold, if all of them are lines of headers.
pub open spec fn headers_of(lines: Seq<Seq<char>>) -> Option<Seq<(Seq<char>, Seq<char>)>>
    decreases lines.len(),
{
    if lines.len() == 0 {
        Some(Seq::empty())
    } else {
        both(headers_of(lines.drop_last()), headers_on(lines.last()))
    }
}

/// What the headers of an answer announce. They announce nothing unless they tell a location,
/// and one that starts with `yeelight://`.
pub open spec fn announced(headers: Seq<(Seq<char>, Seq<char>)>) -> Option<AnnouncementView> {
    match last_value(headers, "location"@) {
        None => None,
        Some(location) => match after_prefix(location, "yeelight://"@) {
            None => None,
            Some(addr) => Some(
                AnnouncementView {
                    addr,
                    id: last_value(headers, "id"@),
                    model: last_value(headers, "model"@),
                    fw_ver: last_value(headers, "fw_ver"@),
                    power: match last_value(headers, "power"@) {
                        Some(value) => Some(value == "on"@),
                        None => None,
                    },
                    brightness: match last_value(headers, "bright"@) {
                        Some(value) => match unsigned_value(value, u8::MAX as int) {
                            Some(n) => Some(n as u8),
                            None => None,
                        },
                        None => None,
                    },
                    name: last_value(headers, "name"@),
                    supported_methods: match last_value(headers, "support"@) {
                        Some(value) => words_of(value),
                        None => Seq::empty(),
                    },
                },
            ),
        },
    }
}

/// What the lines of an answer to a search announce: nothing, unless the first line accepts the
/// request and the others are lines of headers.
pub open spec fn announced_by(lines: Seq<Seq<char>>) -> Option<AnnouncementView> {
    if lines.len() == 0 || trimmed(lines[0]) != "HTTP/1.1 200 OK"@ {
        None
    } else {
        match headers_of(lines.drop_first()) {
            Some(headers) => announced(headers),
            None => None,
        }
    }
}

/// What an answer to a search announces.
pub open spec fn announcement(response: Seq<char>) -> Option<AnnouncementView> {
    announced_by(lines_of(response))
}

/// Lines that are no headers stay so when more lines follow.
proof fn lemma_no_headers(lines: Seq<Seq<char>>, n: int)
    requires
        0 <= n <= lines.len(),
        headers_of(lines.take(n)) is None,
    ensures
        headers_of(lines) is None,
    decreases lines.len(),
{
    if n < lines.len() {
        assert(lines.drop_last().take(n) =~= lines.take(n));
        lemma_no_headers(lines.drop_last(), n);
    } else {
        assert(lines.take(n) =~= lines);
    }
}

/// Reads the headers from the lines after the first.
fn read_headers(lines: &Vec<&str>) -> (r: Option<Vec<(String, String)>>)
    requires
        lines@.len() > 0,
    ensures
        match r {
            Some(headers) => headers_of(slices_view(lines@).drop_first()) == Some(
                headers_view(headers@),
            ),
            None => headers_of(slices_view(lines@).drop_first()) is None,
        },
{
    let ghost all = slices_view(lines@).drop_first();
    let mut headers: Vec<(String, String)> = Vec::new();
    assert(headers_view(headers@) =~= Seq::empty());
    for i in 1..lines.len()
        invariant
            all == slices_view(lines@).drop_first(),
            headers_of(all.take(i - 1)) == Some(headers_view(headers@)),
    {
        let ghost before = headers@;
        let line = trim(lines[i]);
        proof {
            assert(all.take(i as int).drop_last() =~= all.take(i - 1));
            assert(all.take(i as int).last() == lines@[i as int]@);
        }
        if line.is_empty() {
            assert(headers_view(headers@) + Seq::<(Seq<char>, Seq<char>)>::empty()
                =~= headers_view(headers@));
        } else {
            match split_once(line, ':') {
                Some((name, value)) => {
                    let name = to_lowercase(trim(name));
                    let value = trim(value).to_owned();
                    headers.push((name, value));
                    assert(headers_view(headers@) =~= headers_view(before) + seq![(name@, value@)]);
                },
                None => {
                    proof {
                        lemma_no_headers(all, i as int);
                    }
                    return None;
                },
            }
        }
    }
    assert(all.take(all.len() as int) =~= all);
    Some(headers)
}

/// The value of the header `name`, of the last one where there are several.
fn header<'a>(headers: &'a Vec<(String, String)>, name: &str) -> (r: Option<&'a str>)
    ensures
        opt_str_view(r) == last_value(headers_view(headers@), name@),
{
    match find_last(headers, name) {
        Some(i) => {
            proof {
                lemma_last_at(headers_view(headers@), name@, i as int);
            }
            Some(headers[i].1.as_str())
        },
        None => {
            proof {
                lemma_no_value(headers_view(headers@), name@);
            }
            None
        },
    }
}

/// Reads an announcement from the headers of an answer, whose names are in lower case.
pub fn announce(headers: &Vec<(String, String)>) -> (r: Option<Announcement>)
    ensures
        match r {
            Some(announcement) => announced(headers_view(headers@)) == Some(announcement@),
            None => announced(headers_view(headers@)) is None,
        },
{
    let location = match header(headers, "location") {
        Some(location) => location,
        None => return None,
    };
    let addr = match strip_prefix(location, "yeelight://") {
        Some(addr) => addr.to_owned(),
        None => return None,
    };
    let power = match header(headers, "power") {
        Some(value) => Some(same_text(value, "on")),
        None => None,
    };
    let brightness = match header(headers, "bright") {
        Some(value) => match parse_unsigned(value, u8::MAX as u32) {
            Some(n) => Some(n as u8),
            None => None,
        },
        None => None,
    };
    let supported_methods = match header(headers, "support") {
        Some(value) => words(value),
        None => Vec::new(),
    };
    let r = Announcement {
        addr,
        id: opt_to_owned(header(headers, "id")),
        model: opt_to_owned(header(headers, "model")),
        fw_ver: opt_to_owned(header(headers, "fw_ver")),
        power,
        brightness,
        name: opt_to_owned(header(headers, "name")),
        supported_methods,
    };
    assert(strings_view(Seq::<String>::empty()) =~= Seq::empty());
    assert(announced(headers_view(headers@))->0 =~= r@);
    Some(r)
}

/// Reads what a bulb answers to a search.
pub fn parse_response(response: &str) -> (r: Option<Announcement>)
    ensures
        match r {
            Some(found) => announcement(response@) == Some(found@),
            None => announcement(response@) is None,
        },
{
    let all = lines(response);
    assert(slices_view(all@).len() == all@.len());
    if all.len() == 0 {
        return None;
    }
    assert(slices_view(all@)[0] == all@[0]@);
    if !same_text(trim(all[0]), "HTTP/1.1 200 OK") {
        return None;
    }
    match read_headers(&all) {
        Some(headers) => announce(&headers),
        None => None,
    }
}

/// Information returned by a Yeelight device during discovery.
#[derive(Debug)]
pub struct DiscoveredDevice {
    /// TCP address to connect to.
    pub addr: DeviceAddr,
    pub id: Option<String>,
    pub model: Option<String>,
    pub fw_ver: Option<String>,
    pub power: Option<bool>,
    pub brightness: Option<u8>,
    pub name: Option<String>,
    /// List of method names supported by this device.
    pub supported_methods: Vec<String>,
}

impl Clone for DiscoveredDevice {
    fn clone(&self) -> (r: Self)
        ensures
            r@ == self@,
    {
        DiscoveredDevice {
            addr: self.addr,
            id: opt_clone(&self.id),
            model: opt_clone(&self.model),
            fw_ver: opt_clone(&self.fw_ver),
            power: self.power,
            brightness: self.brightness,
            name: opt_clone(&self.name),
            supported_methods: strings_clone(&self.supported_methods),
        }
    }
}

/// A device, as contracts speak of it: its address, and all else that it announced.
pub struct DeviceView {
    pub addr: DeviceAddr,
    pub id: Option<Seq<char>>,
    pub model: Option<Seq<char>>,
    pub fw_ver: Option<Seq<char>>,
    pub power: Option<bool>,
    pub brightness: Option<u8>,
    pub name: Option<Seq<char>>,
    pub supported_methods: Seq<Seq<char>>,
}

impl View for DiscoveredDevice {
    type V = DeviceView;

    open spec fn view(&self) -> DeviceView {
        DeviceView {
            addr: self.addr,
            id: opt_view(self.id),
            model: opt_view(self.model),
            fw_ver: opt_view(self.fw_ver),
            power: self.power,
            brightness: self.brightness,
            name: opt_view(self.name),
            supported_methods: strings_view(self.supported_methods@),
        }
    }
}

impl AnnouncementView {
    /// The device that made the announcement, at the address that it gave.
    pub open spec fn device(self, addr: DeviceAddr) -> DeviceView {
        DeviceView {
            addr,
            id: self.id,
            model: self.model,
            fw_ver: self.fw_ver,
            power: self.power,
            brightness: self.brightness,
            name: self.name,
            supported_methods: self.supported_methods,
        }
    }
}

/// The devices that a vector holds.
pub open spec fn devices_view(devices: Seq<DiscoveredDevice>) -> Seq<DeviceView> {
    devices.map_values(|device: DiscoveredDevice| device@)
}

/// One of the devices has the address `addr`.
pub open spec fn has_addr(devices: Seq<DeviceView>, addr: DeviceAddr) -> bool {
    exists|i: int| 0 <= i < devices.len() && (#[trigger] devices[i]).addr == addr
}

/// The devices found once an announcement has come in. `addr` is what its address reads as, and
/// `None` where it reads as none, so that the announcement is passed over. So is one from an
/// address that has been heard of before.
pub open spec fn with_announced(
    devices: Seq<DeviceView>,
    found: AnnouncementView,
    addr: Option<DeviceAddr>,
) -> Seq<DeviceView> {
    match addr {
        Some(addr) => if has_addr(devices, addr) {
            devices
        } else {
            devices.push(found.device(addr))
        },
        None => devices,
    }
}

/// Adds the device that made an announcement, unless its address is none or is known already.
pub fn add_device(
    devices: &mut Vec<DiscoveredDevice>,
    found: Announcement,
    addr: Option<DeviceAddr>,
)
    ensures
        devices_view(final(devices)@) == with_announced(devices_view(old(devices)@), found@, addr),
{
    let at = match addr {
        Some(at) => at,
        None => return,
    };
    let ghost known = devices_view(devices@);
    for i in 0..devices.len()
        invariant
            addr == Some(at),
            known == devices_view(devices@),
            known == devices_view(old(devices)@),
            forall|j: int| 0 <= j < i ==> (#[trigger] known[j]).addr != at,
    {
        assert(known[i as int] == devices@[i as int]@);
        if devices[i].addr == at {
            assert(has_addr(known, at));
            return;
        }
    }
    let device = DiscoveredDevice {
        addr: at,
        id: found.id,
        model: found.model,
        fw_ver: found.fw_ver,
        power: found.power,
        brightness: found.brightness,
        name: found.name,
        supported_methods: found.supported_methods,
    };
    devices.push(device);
    assert(devices_view(devices@) =~= known.push(device@));
}

/// Calls `std::str::from_utf8`: the text that UTF-8 encodes, and `None` of other bytes.
#[verifier::external_body]
fn from_utf8(bytes: &Vec<u8>) -> (r: Option<&str>)
    ensures
        match r {
            Some(text) => valid_utf8(bytes@) && text@ == decode_utf8(bytes@),
            None => !valid_utf8(bytes@),
        },
{
    std::str::from_utf8(bytes).ok()
}

/// What a datagram announces: nothing, unless it is a text.
pub open spec fn datagram_announces(bytes: Seq<u8>) -> Option<AnnouncementView> {
    if valid_utf8(bytes) {
        announcement(decode_utf8(bytes))
    } else {
        None
    }
}

/// What happens in a search.
pub enum SearchEvent {
    /// The search is ready to wait for an answer.
    Ready,
    /// A datagram came.
    Received(Vec<u8>),
    /// No answer came in the time that was left.
    WouldBlock,
    /// No answer came in the time that was left.
    TimedOut,
    /// Receiving failed otherwise.
    Failed(std::io::Error),
}

/// What the search does next.
pub enum SearchStep {
    /// Wait for an answer, for this time at most.
    Wait(u128),
    /// Add the device that made this announcement, and go on.
    Add(Announcement),
    /// Go on.
    PassOver,
    /// The search is over.
    Finish,
    /// Give up.
    Fail(YeelightError),
}

/// Goes through the answers to a search, one event at a time. `elapsed` is the time since the
/// search request was sent and `timeout` the time that the search may take, both in
/// nanoseconds.
///
/// An answer that comes in time and announces a bulb is added, and one that announces nothing is
/// passed over. The search ends, without an error, when the time is up, whatever comes in then,
/// and when no answer came in the time that was left.
pub fn discover(event: SearchEvent, elapsed: u128, timeout: u128) -> (r: SearchStep)
    ensures
        match event {
            SearchEvent::Ready => if elapsed < timeout {
                r == SearchStep::Wait((timeout - elapsed) as u128)
            } else {
                r is Finish
            },
            SearchEvent::Received(bytes) => if elapsed > timeout {
                r is Finish
            } else {
                match datagram_announces(bytes@) {
                    Some(found) => r matches SearchStep::Add(a) && a@ == found,
                    None => r is PassOver,
                }
            },
            SearchEvent::WouldBlock | SearchEvent::TimedOut => r is Finish,
            SearchEvent::Failed(e) => r == SearchStep::Fail(YeelightError::Io(e)),
        },
{
    match event {
        SearchEvent::Ready => if elapsed < timeout {
            SearchStep::Wait(timeout - elapsed)
        } else {
            SearchStep::Finish
        },
        SearchEvent::Received(bytes) => {
            if elapsed > timeout {
                return SearchStep::Finish;
            }
            let text = match from_utf8(&bytes) {
                Some(text) => text,
                None => {
                    proof {
                        reveal_strlit("");
                    }
                    ""
                },
            };
            match parse_response(text) {
                Some(found) => SearchStep::Add(found),
                None => SearchStep::PassOver,
            }
        },
        SearchEvent::WouldBlock => SearchStep::Finish,
        SearchEvent::TimedOut => SearchStep::Finish,
        SearchEvent::Failed(e) => SearchStep::Fail(YeelightError::Io(e)),
    }
}

/// No two devices have the same address.
pub open spec fn addrs_differ(devices: Seq<DeviceView>) -> bool {
    forall|i: int, j: int|
        0 <= i < j < devices.len() ==> (#[trigger] devices[i]).addr != (#[trigger] devices[j]).addr
}

/// The devices found after a number of announcements, each with what its address reads as.
pub open spec fn found_devices(answers: Seq<(AnnouncementView, Option<DeviceAddr>)>) -> Seq<
    DeviceView,
>
    decreases answers.len(),
{
    if answers.len() == 0 {
        Seq::empty()
    } else {
        with_announced(found_devices(answers.drop_last()), answers.last().0, answers.last().1)
    }
}

/// However many answers come in, no address is listed twice, every address that answered is
/// listed, and what is listed of it is its first answer.
pub proof fn lemma_each_addr_once(answers: Seq<(AnnouncementView, Option<DeviceAddr>)>)
    ensures
        addrs_differ(found_devices(answers)),
        forall|i: int|
            0 <= i < answers.len() && (#[trigger] answers[i]).1 is Some ==> has_addr(
                found_devices(answers),
                answers[i].1->0,
            ),
        forall|k: int|
            0 <= k < found_devices(answers).len() ==> first_answer(
                answers,
                #[trigger] found_devices(answers)[k],
            ),
    decreases answers.len(),
{
    if answers.len() > 0 {
        let before = answers.drop_last();
        lemma_each_addr_once(before);
        let known = found_devices(before);
        let all = found_devices(answers);
        let last = answers.last();
        assert forall|i: int|
            0 <= i < answers.len() && (#[trigger] answers[i]).1 is Some implies has_addr(
            all,
            answers[i].1->0,
        ) by {
            let addr = answers[i].1->0;
            if i < before.len() {
                assert(before[i] == answers[i]);
                let k = choose|k: int| 0 <= k < known.len() && (#[trigger] known[k]).addr == addr;
                assert(all[k].addr == addr);
            } else if !has_addr(known, addr) {
                assert(all[all.len() - 1].addr == addr);
            }
        }
        assert forall|k: int| 0 <= k < all.len() implies first_answer(
            answers,
            #[trigger] all[k],
        ) by {
            if k < known.len() {
                assert(first_answer(before, known[k]));
                let i = choose|i: int|
                    0 <= i < before.len() && #[trigger] is_first(before, i, known[k]);
                assert(is_first(answers, i, all[k])) by {
                    assert(answers[i] == before[i]);
                    assert(forall|j: int| 0 <= j < i ==> before[j] == #[trigger] answers[j]);
                }
            } else {
                assert(is_first(answers, answers.len() - 1, all[k])) by {
                    assert forall|j: int| 0 <= j < answers.len() - 1 implies (
                    #[trigger] answers[j]).1 != Some(all[k].addr) by {
                        assert(before[j] == answers[j]);
                    }
                }
            }
        }
    }
}

/// `device` is what the answer with the number `i` announced, and no earlier answer came from
/// its address.
pub open spec fn is_first(
    answers: Seq<(AnnouncementView, Option<DeviceAddr>)>,
    i: int,
    device: DeviceView,
) -> bool {
    &&& answers[i].1 == Some(device.addr)
    &&& device == answers[i].0.device(device.addr)
    &&& forall|j: int| 0 <= j < i ==> (#[trigger] answers[j]).1 != Some(device.addr)
}

/// `device` is what the first answer from its address announced.
pub open spec fn first_answer(
    answers: Seq<(AnnouncementView, Option<DeviceAddr>)>,
    device: DeviceView,
) -> bool {
    exists|i: int| 0 <= i < answers.len() && #[trigger] is_first(answers, i, device)
}

/// A datagram that came in during a search.
pub struct Heard {
    /// The time since the search request was sent, in nanoseconds.
    pub at: nat,
    pub bytes: Seq<u8>,
    /// What the address that it announces reads as, if it reads as one.
    pub addr: Option<DeviceAddr>,
}

/// The announcements among a number of datagrams, each with what its address reads as, and
/// whether the search is over then: a datagram that comes too late ends it.
pub open spec fn answers_in_time(heard: Seq<Heard>, timeout: nat) -> (
    Seq<(AnnouncementView, Option<DeviceAddr>)>,
    bool,
)
    decreases heard.len(),
{
    if heard.len() == 0 {
        (Seq::empty(), false)
    } else {
        let (answers, over) = answers_in_time(heard.drop_last(), timeout);
        let last = heard.last();
        if over || last.at > timeout {
            (answers, true)
        } else {
            match datagram_announces(last.bytes) {
                Some(found) => (answers.push((found, last.addr)), false),
                None => (answers, false),
            }
        }
    }
}

/// The devices that a search finds.
pub open spec fn collected(heard: Seq<Heard>, timeout: nat) -> Seq<DeviceView> {
    found_devices(answers_in_time(heard, timeout).0)
}

/// `answer` is what `heard` announced, in time.
pub open spec fn from_heard(
    answer: (AnnouncementView, Option<DeviceAddr>),
    heard: Heard,
    timeout: nat,
) -> bool {
    &&& heard.at <= timeout
    &&& datagram_announces(heard.bytes) == Some(answer.0)
    &&& heard.addr == answer.1
}

/// `device` is what one of `heard` announced, in time.
pub open spec fn heard_in_time(device: DeviceView, heard: Seq<Heard>, timeout: nat) -> bool {
    exists|i: int|
        {
            &&& 0 <= i < heard.len()
            &&& (#[trigger] heard[i]).at <= timeout
            &&& heard[i].addr == Some(device.addr)
            &&& datagram_announces(heard[i].bytes) matches Some(found)
            &&& device == found.device(device.addr)
        }
}

/// Every answer comes from a datagram that came in time.
proof fn lemma_answer_heard(heard: Seq<Heard>, timeout: nat, k: int)
    requires
        0 <= k < answers_in_time(heard, timeout).0.len(),
    ensures
        exists|i: int|
            0 <= i < heard.len() && from_heard(
                answers_in_time(heard, timeout).0[k],
                #[trigger] heard[i],
                timeout,
            ),
    decreases heard.len(),
{
    let before = heard.drop_last();
    let answer = answers_in_time(heard, timeout).0[k];
    let known = answers_in_time(before, timeout).0;
    if k < known.len() {
        lemma_answer_heard(before, timeout, k);
        let i = choose|i: int|
            0 <= i < before.len() && from_heard(known[k], #[trigger] before[i], timeout);
        assert(from_heard(answer, heard[i], timeout));
    } else {
        assert(from_heard(answer, heard[heard.len() - 1], timeout));
    }
}

/// Only devices that answered in time are found: each comes from a datagram that came in no
/// later than `timeout`. No address is found twice.
pub proof fn lemma_found_in_time(heard: Seq<Heard>, timeout: nat)
    ensures
        addrs_differ(collected(heard, timeout)),
        forall|k: int|
            0 <= k < collected(heard, timeout).len() ==> heard_in_time(
                #[trigger] collected(heard, timeout)[k],
                heard,
                timeout,
            ),
{
    let answers = answers_in_time(heard, timeout).0;
    lemma_each_addr_once(answers);
    assert forall|k: int| 0 <= k < collected(heard, timeout).len() implies heard_in_time(
        #[trigger] collected(heard, timeout)[k],
        heard,
        timeout,
    ) by {
        let device = collected(heard, timeout)[k];
        assert(first_answer(answers, found_devices(answers)[k]));
        let a = choose|a: int| 0 <= a < answers.len() && #[trigger] is_first(answers, a, device);
        lemma_answer_heard(heard, timeout, a);
        let i = choose|i: int|
            0 <= i < heard.len() && from_heard(answers[a], #[trigger] heard[i], timeout);
        assert(heard[i].at <= timeout);
    }
}

/// The search is not over while datagrams come in time.
proof fn lemma_not_over(heard: Seq<Heard>, timeout: nat)
    requires
        forall|a: int| 0 <= a < heard.len() ==> (#[trigger] heard[a]).at <= timeout,
    ensures
        !answers_in_time(heard, timeout).1,
    decreases heard.len(),
{
    if heard.len() > 0 {
        assert(heard[heard.len() - 1].at <= timeout);
        lemma_not_over(heard.drop_last(), timeout);
    }
}

/// A datagram that came in time and announces something is among the answers.
proof fn lemma_heard_answers(heard: Seq<Heard>, timeout: nat, i: int) -> (k: int)
    requires
        0 <= i < heard.len(),
        forall|a: int| 0 <= a <= i ==> (#[trigger] heard[a]).at <= timeout,
        datagram_announces(heard[i].bytes) is Some,
    ensures
        0 <= k < answers_in_time(heard, timeout).0.len(),
        answers_in_time(heard, timeout).0[k].1 == heard[i].addr,
    decreases heard.len(),
{
    let before = heard.drop_last();
    assert(forall|a: int| 0 <= a < before.len() ==> before[a] == #[trigger] heard[a]);
    if i < before.len() {
        lemma_heard_answers(before, timeout, i)
    } else {
        assert(heard[i].at <= timeout);
        lemma_not_over(before, timeout);
        answers_in_time(before, timeout).0.len() as int
    }
}

/// All devices that answered in time are found: where datagrams come in one after the other,
/// each that came in no later than `timeout` and announces a bulb at an address has that address
/// found.
pub proof fn lemma_all_in_time_found(heard: Seq<Heard>, timeout: nat, i: int)
    requires
        forall|a: int, b: int|
            0 <= a < b < heard.len() ==> (#[trigger] heard[a]).at <= (#[trigger] heard[b]).at,
        0 <= i < heard.len(),
        heard[i].at <= timeout,
        datagram_announces(heard[i].bytes) is Some,
        heard[i].addr is Some,
    ensures
        exists|k: int|
            0 <= k < collected(heard, timeout).len() && Some(
                (#[trigger] collected(heard, timeout)[k]).addr,
            ) == heard[i].addr,
{
    assert forall|a: int| 0 <= a <= i implies (#[trigger] heard[a]).at <= timeout by {
        if a < i {
            assert(heard[a].at <= heard[i].at);
        }
    }
    let k = lemma_heard_answers(heard, timeout, i);
    let answers = answers_in_time(heard, timeout).0;
    lemma_answer_is_listed(answers, k);
    let n = choose|n: int|
        0 <= n < found_devices(answers).len() && Some((#[trigger] found_devices(answers)[n]).addr)
            == answers[k].1;
    assert(Some(collected(heard, timeout)[n].addr) == heard[i].addr);
}

/// The headers of lines are those of the first part, followed by those of the second.
proof fn lemma_headers_of_both(a: Seq<Seq<char>>, b: Seq<Seq<char>>)
    ensures
        headers_of(a + b) == both(headers_of(a), headers_of(b)),
    decreases b.len(),
{
    if b.len() == 0 {
        assert(a + b =~= a);
        if let Some(headers) = headers_of(a) {
            assert(headers + Seq::empty() =~= headers);
        }
    } else {
        lemma_headers_of_both(a, b.drop_last());
        assert((a + b).drop_last() =~= a + b.drop_last());
        if let (Some(x), Some(y), Some(z)) = (
            headers_of(a),
            headers_of(b.drop_last()),
            headers_on(b.last()),
        ) {
            assert((x + y) + z =~= x + (y + z));
        }
    }
}

/// The headers of lines, with one line among them set apart.
proof fn lemma_headers_around(lines: Seq<Seq<char>>, i: int)
    requires
        0 <= i < lines.len(),
    ensures
        headers_of(lines) == both(
            both(headers_of(lines.take(i)), headers_on(lines[i])),
            headers_of(lines.skip(i + 1)),
        ),
        headers_of(lines.remove(i)) == both(
            headers_of(lines.take(i)),
            headers_of(lines.skip(i + 1)),
        ),
{
    assert(lines =~= lines.take(i + 1) + lines.skip(i + 1));
    assert(lines.take(i + 1).drop_last() =~= lines.take(i));
    lemma_headers_of_both(lines.take(i + 1), lines.skip(i + 1));
    assert(lines.remove(i) =~= lines.take(i) + lines.skip(i + 1));
    lemma_headers_of_both(lines.take(i), lines.skip(i + 1));
}

/// A blank line after the first changes nothing in what an answer announces.
pub proof fn lemma_blank_line(lines: Seq<Seq<char>>, i: int)
    requires
        0 < i < lines.len(),
        trimmed(lines[i]).len() == 0,
    ensures
        announced_by(lines) == announced_by(lines.remove(i)),
{
    let rest = lines.drop_first();
    lemma_headers_around(rest, i - 1);
    assert(lines.remove(i).drop_first() =~= rest.remove(i - 1));
    if let Some(headers) = headers_of(rest.take(i - 1)) {
        assert(headers + Seq::empty() =~= headers);
    }
}

/// The names of the headers that an announcement is read from.
pub open spec fn header_names() -> Seq<Seq<char>> {
    seq![
        "location"@,
        "id"@,
        "model"@,
        "fw_ver"@,
        "power"@,
        "bright"@,
        "name"@,
        "support"@,
    ]
}

/// Headers with the same values of these names announce the same.
proof fn lemma_same_headers(a: Seq<(Seq<char>, Seq<char>)>, b: Seq<(Seq<char>, Seq<char>)>)
    requires
        forall|k: int|
            0 <= k < header_names().len() ==> last_value(a, #[trigger] header_names()[k])
                == last_value(b, header_names()[k]),
    ensures
        announced(a) == announced(b),
{
    let names = header_names();
    assert(names[0] == "location"@ && names[1] == "id"@ && names[2] == "model"@ && names[3]
        == "fw_ver"@ && names[4] == "power"@ && names[5] == "bright"@ && names[6] == "name"@
        && names[7] == "support"@);
}

/// A header of another name after the first line changes nothing in what an answer announces.
pub proof fn lemma_unknown_header(lines: Seq<Seq<char>>, i: int)
    requires
        0 < i < lines.len(),
        headers_on(lines[i]) matches Some(headers) && headers.len() == 1
            && !header_names().contains(headers[0].0),
    ensures
        announced_by(lines) == announced_by(lines.remove(i)),
{
    let rest = lines.drop_first();
    lemma_headers_around(rest, i - 1);
    assert(lines.remove(i).drop_first() =~= rest.remove(i - 1));
    let header = headers_on(lines[i])->0;
    if let (Some(a), Some(b)) = (headers_of(rest.take(i - 1)), headers_of(rest.skip(i))) {
        assert(header =~= seq![header[0]]);
        assert forall|k: int| 0 <= k < header_names().len() implies last_value(
            a + header + b,
            #[trigger] header_names()[k],
        ) == last_value(a + b, header_names()[k]) by {
            lemma_other_key(a, header[0], b, header_names()[k]);
        }
        lemma_same_headers(a + header + b, a + b);
    }
}

/// Lines in another order hold the same headers in another order.
proof fn lemma_headers_order(a: Seq<Seq<char>>, b: Seq<Seq<char>>)
    requires
        a.to_multiset() == b.to_multiset(),
    ensures
        match (headers_of(a), headers_of(b)) {
            (Some(x), Some(y)) => x.to_multiset() == y.to_multiset(),
            (None, None) => true,
            _ => false,
        },
    decreases a.len(),
{
    a.to_multiset_ensures();
    b.to_multiset_ensures();
    if a.len() == 0 {
        assert(a =~= b);
    } else {
        let at = a.len() - 1;
        let line = a[at];
        assert(a.contains(line));
        assert(b.to_multiset().count(line) > 0);
        let i = choose|i: int| 0 <= i < b.len() && b[i] == line;
        assert(a.remove(at) =~= a.drop_last());
        lemma_headers_order(a.remove(at), b.remove(i));
        lemma_headers_around(b, i);
        if let (Some(first), Some(here), Some(then)) = (
            headers_of(b.take(i)),
            headers_on(line),
            headers_of(b.skip(i + 1)),
        ) {
            let rest = headers_of(a.remove(at))->0;
            lemma_multiset_commutative(rest, here);
            lemma_multiset_commutative(first, then);
            lemma_multiset_commutative(first + here, then);
            lemma_multiset_commutative(first, here);
            assert((first + here + then).to_multiset() =~= (rest + here).to_multiset());
        }
    }
}

/// The order of the lines after the first does not matter, unless a header that an announcement
/// is read from comes twice. Other headers may come as often as they like.
pub proof fn lemma_line_order(a: Seq<Seq<char>>, b: Seq<Seq<char>>)
    requires
        a.len() > 0,
        b.len() > 0,
        a[0] == b[0],
        a.drop_first().to_multiset() == b.drop_first().to_multiset(),
        headers_of(a.drop_first()) matches Some(headers) ==> forall|k: int|
            0 <= k < header_names().len() ==> at_most_once(headers, #[trigger] header_names()[k]),
    ensures
        announced_by(a) == announced_by(b),
{
    lemma_headers_order(a.drop_first(), b.drop_first());
    if let (Some(x), Some(y)) = (headers_of(a.drop_first()), headers_of(b.drop_first())) {
        assert forall|k: int| 0 <= k < header_names().len() implies last_value(
            x,
            #[trigger] header_names()[k],
        ) == last_value(y, header_names()[k]) by {
            lemma_order_is_free(x, y, header_names()[k]);
        }
        lemma_same_headers(x, y);
    }
}

/// A line of a header: a name, a colon and a value, with white space around each as one likes.
/// Only the first colon counts, and the name may be in any case.
pub proof fn lemma_header_line(
    start: Seq<char>,
    name: Seq<char>,
    gap: Seq<char>,
    space: Seq<char>,
    value: Seq<char>,
    end: Seq<char>,
)
    requires
        all_white(start) && all_white(gap) && all_white(space) && all_white(end),
        name.len() > 0,
        is_tight(name),
        !name.contains(':'),
        is_tight(value),
    ensures
        headers_on(start + name + gap + seq![':'] + space + value + end) == Some(
            seq![(lowered(name), value)],
        ),
{
    let line = start + name + gap + seq![':'] + space + value + end;
    let left = name + gap;
    let right = if value.len() > 0 {
        space + value
    } else {
        Seq::empty()
    };
    let after = if value.len() > 0 {
        end
    } else {
        space + end
    };
    let core = left + seq![':'] + right;
    assert(line =~= start + core + after) by {
        assert(value.len() == 0 ==> value =~= Seq::empty());
    }
    assert(all_white(after)) by {
        assert forall|i: int| 0 <= i < after.len() implies is_white(#[trigger] after[i]) by {
            if value.len() == 0 {
                if i < space.len() {
                    assert(after[i] == space[i]);
                } else {
                    assert(after[i] == end[i - space.len()]);
                }
            }
        }
    }
    assert(core[0] == name[0]);
    if value.len() > 0 {
        assert(core[core.len() - 1] == value[value.len() - 1]);
    } else {
        assert(core[core.len() - 1] == ':');
    }
    lemma_trimmed_core(start, core, after);
    assert(!left.contains(':')) by {
        if left.contains(':') {
            let i = choose|i: int| 0 <= i < left.len() && left[i] == ':';
            if i < name.len() {
                assert(name[i] == ':');
            } else {
                assert(gap[i - name.len()] == ':');
            }
        }
    }
    lemma_cut(left, ':', right);
    lemma_trimmed_core(Seq::empty(), name, gap);
    assert(Seq::<char>::empty() + name + gap =~= left);
    lemma_trimmed_core(space, value, Seq::empty());
    assert(space + value + Seq::<char>::empty() =~= space + value);
    lemma_trimmed_core(Seq::empty(), Seq::empty(), Seq::empty());
    assert(Seq::<char>::empty() + Seq::<char>::empty() + Seq::<char>::empty()
        =~= Seq::<char>::empty());
    assert(trimmed(right) == value) by {
        if value.len() == 0 {
            assert(value =~= Seq::<char>::empty());
        }
    }
}

/// `line` holds a header with the name `name`.
pub open spec fn names_header(line: Seq<char>, name: Seq<char>) -> bool {
    headers_on(line) matches Some(headers) && headers.len() == 1 && headers[0].0 == name
}

/// Where all lines are lines of headers, they hold headers, and otherwise none.
proof fn lemma_all_lines(lines: Seq<Seq<char>>)
    ensures
        headers_of(lines) is Some <==> forall|j: int|
            0 <= j < lines.len() ==> headers_on(#[trigger] lines[j]) is Some,
    decreases lines.len(),
{
    if lines.len() > 0 {
        let before = lines.drop_last();
        lemma_all_lines(before);
        assert(forall|j: int| 0 <= j < before.len() ==> before[j] == #[trigger] lines[j]);
        if forall|j: int| 0 <= j < lines.len() ==> headers_on(#[trigger] lines[j]) is Some {
            assert forall|j: int| 0 <= j < before.len() implies headers_on(
                #[trigger] before[j],
            ) is Some by {
                assert(headers_on(lines[j]) is Some);
            }
            assert(headers_on(lines[lines.len() - 1]) is Some);
        }
        if headers_of(lines) is Some {
            assert forall|j: int| 0 <= j < lines.len() implies headers_on(
                #[trigger] lines[j],
            ) is Some by {
                if j < before.len() {
                    assert(headers_on(before[j]) is Some);
                }
            }
        }
    }
}

/// Lines without a header of a name hold no header of that name.
proof fn lemma_name_absent(lines: Seq<Seq<char>>, name: Seq<char>)
    requires
        headers_of(lines) is Some,
        forall|j: int| 0 <= j < lines.len() ==> !names_header(#[trigger] lines[j], name),
    ensures
        forall|k: int|
            0 <= k < headers_of(lines)->0.len() ==> (#[trigger] headers_of(lines)->0[k]).0 != name,
    decreases lines.len(),
{
    if lines.len() > 0 {
        let before = lines.drop_last();
        assert forall|j: int| 0 <= j < before.len() implies !names_header(
            #[trigger] before[j],
            name,
        ) by {
            assert(!names_header(lines[j], name));
        }
        lemma_name_absent(before, name);
        assert(!names_header(lines[lines.len() - 1], name));
        let known = headers_of(before)->0;
        let all = headers_of(lines)->0;
        assert forall|k: int| 0 <= k < all.len() implies (#[trigger] all[k]).0 != name by {
            if k < known.len() {
                assert(all[k] == known[k]);
            } else {
                assert(all[k] == headers_on(lines.last())->0[k - known.len()]);
            }
        }
    }
}

/// The value of a header is that of the last line that names it.
proof fn lemma_value_of_line(
    lines: Seq<Seq<char>>,
    i: int,
    name: Seq<char>,
    value: Seq<char>,
)
    requires
        headers_of(lines) is Some,
        0 <= i < lines.len(),
        headers_on(lines[i]) == Some(seq![(name, value)]),
        forall|j: int| i < j < lines.len() ==> !names_header(#[trigger] lines[j], name),
    ensures
        last_value(headers_of(lines)->0, name) == Some(value),
{
    lemma_headers_around(lines, i);
    let x = headers_of(lines.take(i))->0;
    let y = headers_of(lines.skip(i + 1))->0;
    assert forall|j: int| 0 <= j < lines.skip(i + 1).len() implies !names_header(
        #[trigger] lines.skip(i + 1)[j],
        name,
    ) by {
        assert(!names_header(lines[i + 1 + j], name));
    }
    lemma_name_absent(lines.skip(i + 1), name);
    let all = headers_of(lines)->0;
    assert(all[x.len() as int] == (name, value));
    assert forall|j: int| x.len() < j < all.len() implies (#[trigger] all[j]).0 != name by {
        assert(all[j] == y[j - x.len() - 1]);
    }
    lemma_last_at(all, name, x.len() as int);
}

/// The line with the number `i`, after the first, is the last that has the header `name`, with
/// the value `value`.
pub open spec fn last_header(
    lines: Seq<Seq<char>>,
    i: int,
    name: Seq<char>,
    value: Seq<char>,
) -> bool {
    &&& 0 < i < lines.len()
    &&& headers_on(lines[i]) == Some(seq![(name, value)])
    &&& forall|j: int| i < j < lines.len() ==> !names_header(#[trigger] lines[j], name)
}

/// No line after the first has the header `name`.
pub open spec fn no_header(lines: Seq<Seq<char>>, name: Seq<char>) -> bool {
    forall|j: int| 0 < j < lines.len() ==> !names_header(#[trigger] lines[j], name)
}

/// [`last_header`], for the lines after the first.
proof fn lemma_last_header(lines: Seq<Seq<char>>, i: int, name: Seq<char>, value: Seq<char>)
    requires
        headers_of(lines.drop_first()) is Some,
        last_header(lines, i, name, value),
    ensures
        last_value(headers_of(lines.drop_first())->0, name) == Some(value),
{
    let rest = lines.drop_first();
    assert forall|j: int| i - 1 < j < rest.len() implies !names_header(
        #[trigger] rest[j],
        name,
    ) by {
        assert(!names_header(lines[j + 1], name));
    }
    lemma_value_of_line(rest, i - 1, name, value);
}

/// What each header announces: the last line of its name counts. A bulb is announced as on
/// exactly if its power is the text `on`.
pub proof fn lemma_header_announces(
    lines: Seq<Seq<char>>,
    found: AnnouncementView,
    i: int,
    name: Seq<char>,
    value: Seq<char>,
)
    requires
        announced_by(lines) == Some(found),
        last_header(lines, i, name, value),
    ensures
        name == "location"@ ==> value == "yeelight://"@ + found.addr,
        name == "id"@ ==> found.id == Some(value),
        name == "model"@ ==> found.model == Some(value),
        name == "fw_ver"@ ==> found.fw_ver == Some(value),
        name == "power"@ ==> found.power is Some && (found.power->0 <==> value == "on"@),
        name == "bright"@ ==> tells_number(byte_number(found.brightness), value, 0, 255),
        name == "name"@ ==> found.name == Some(value),
        name == "support"@ ==> found.supported_methods == words_of(value),
{
    lemma_last_header(lines, i, name, value);
    if name == "location"@ {
        lemma_after_prefix(value, "yeelight://"@, found.addr);
    }
    lemma_tells_number(value, 0, 255);
    lemma_value_is_natural(value, 255);
}

/// What a header that is not there announces: nothing.
pub proof fn lemma_missing_header(
    lines: Seq<Seq<char>>,
    found: AnnouncementView,
    name: Seq<char>,
)
    requires
        announced_by(lines) == Some(found),
        no_header(lines, name),
    ensures
        name != "location"@,
        name == "id"@ ==> found.id is None,
        name == "model"@ ==> found.model is None,
        name == "fw_ver"@ ==> found.fw_ver is None,
        name == "power"@ ==> found.power is None,
        name == "bright"@ ==> found.brightness is None,
        name == "name"@ ==> found.name is None,
        name == "support"@ ==> found.supported_methods == Seq::<Seq<char>>::empty(),
{
    let rest = lines.drop_first();
    assert forall|j: int| 0 <= j < rest.len() implies !names_header(#[trigger] rest[j], name) by {
        assert(!names_header(lines[j + 1], name));
    }
    lemma_name_absent(rest, name);
    lemma_no_value(headers_of(rest)->0, name);
}

/// An answer announces a bulb if its first line accepts the request, its other lines are lines
/// of headers, and the last location among them is one of the protocol.
pub proof fn lemma_is_announced(lines: Seq<Seq<char>>, i: int, addr: Seq<char>)
    requires
        lines.len() > 0,
        trimmed(lines[0]) == "HTTP/1.1 200 OK"@,
        forall|j: int| 0 < j < lines.len() ==> headers_on(#[trigger] lines[j]) is Some,
        last_header(lines, i, "location"@, "yeelight://"@ + addr),
    ensures
        announced_by(lines) matches Some(found) && found.addr == addr,
{
    let rest = lines.drop_first();
    assert forall|j: int| 0 <= j < rest.len() implies headers_on(#[trigger] rest[j]) is Some by {
        assert(headers_on(lines[j + 1]) is Some);
    }
    lemma_all_lines(rest);
    lemma_last_header(lines, i, "location"@, "yeelight://"@ + addr);
    lemma_after_prefix("yeelight://"@ + addr, "yeelight://"@, addr);
}

/// An answer announces nothing if it is empty, if its first line does not accept the request,
/// if another line is no line of headers, and if its last location is not one of the protocol.
pub proof fn lemma_is_not_announced(lines: Seq<Seq<char>>, i: int, location: Seq<char>)
    requires
        ({
            ||| lines.len() == 0
            ||| trimmed(lines[0]) != "HTTP/1.1 200 OK"@
            ||| 0 < i < lines.len() && headers_on(lines[i]) is None
            ||| last_header(lines, i, "location"@, location) && !"yeelight://"@.is_prefix_of(
                location,
            )
        }),
    ensures
        announced_by(lines) is None,
{
    if announced_by(lines) is Some {
        let rest = lines.drop_first();
        lemma_all_lines(rest);
        if 0 < i < lines.len() && headers_on(lines[i]) is None {
            assert(headers_on(rest[i - 1]) is Some);
        } else {
            lemma_last_header(lines, i, "location"@, location);
        }
    }
}

/// A blank line is a line without a header.
pub proof fn lemma_blank_is_no_header(line: Seq<char>)
    requires
        all_white(line),
    ensures
        headers_on(line) == Some(Seq::<(Seq<char>, Seq<char>)>::empty()),
{
    lemma_trimmed_core(line, Seq::empty(), Seq::empty());
    assert(line + Seq::<char>::empty() + Seq::<char>::empty() =~= line);
}

/// A line that is not blank and has no colon is no line of headers.
pub proof fn lemma_no_colon(start: Seq<char>, line: Seq<char>, end: Seq<char>)
    requires
        all_white(start) && all_white(end),
        line.len() > 0,
        is_tight(line),
        !line.contains(':'),
    ensures
        headers_on(start + line + end) is None,
{
    lemma_trimmed_core(start, line, end);
    lemma_no_cut(line, ':');
}

/// Words with one space between them.
pub open spec fn joined(words: Seq<Seq<char>>) -> Seq<char>
    decreases words.len(),
{
    if words.len() == 0 {
        Seq::empty()
    } else if words.len() == 1 {
        words[0]
    } else {
        words[0] + (seq![' '] + joined(words.drop_first()))
    }
}

/// Each of `words` is a word.
pub open spec fn are_words(words: Seq<Seq<char>>) -> bool {
    forall|i: int|
        0 <= i < words.len() ==> (#[trigger] words[i]).len() > 0 && none_white(words[i])
}

/// Words that are put together come apart again.
pub proof fn lemma_joined_words(gap: Seq<char>, words: Seq<Seq<char>>)
    requires
        all_white(gap),
        are_words(words),
    ensures
        words_of(gap + joined(words)) == words,
    decreases words.len(),
{
    if words.len() == 0 {
        lemma_no_words(gap);
        assert(gap + joined(words) =~= gap);
        assert(words =~= Seq::empty());
    } else {
        let rest = words.drop_first();
        let tail = if words.len() == 1 {
            Seq::empty()
        } else {
            seq![' '] + joined(rest)
        };
        assert(words[0].len() > 0 && none_white(words[0]));
        assert forall|i: int| 0 <= i < rest.len() implies (#[trigger] rest[i]).len() > 0
            && none_white(rest[i]) by {
            assert(words[i + 1].len() > 0);
        }
        assert(gap + joined(words) =~= gap + words[0] + tail);
        lemma_first_word(gap, words[0], tail);
        if words.len() == 1 {
            lemma_no_words(Seq::empty());
            assert(words =~= seq![words[0]] + Seq::<Seq<char>>::empty());
        } else {
            lemma_joined_words(seq![' '], rest);
            assert(words =~= seq![words[0]] + rest);
        }
    }
}

/// Words that are put together neither start nor end with white space, and stand on one line.
proof fn lemma_joined_is_value(words: Seq<Seq<char>>)
    requires
        words.len() > 0,
        are_words(words),
    ensures
        joined(words).len() > 0,
        is_value(joined(words)),
    decreases words.len(),
{
    assert(words[0].len() > 0 && none_white(words[0]));
    assert(!words[0].contains('\n')) by {
        if words[0].contains('\n') {
            let i = choose|i: int| 0 <= i < words[0].len() && words[0][i] == '\n';
            assert(is_white(words[0][i]));
        }
    }
    if words.len() > 1 {
        let rest = words.drop_first();
        assert forall|i: int| 0 <= i < rest.len() implies (#[trigger] rest[i]).len() > 0
            && none_white(rest[i]) by {
            assert(words[i + 1].len() > 0);
        }
        lemma_joined_is_value(rest);
        let all = joined(words);
        let tail = joined(rest);
        assert(all[0] == words[0][0]);
        assert(all[all.len() - 1] == tail[tail.len() - 1]);
        assert(!all.contains('\n')) by {
            if all.contains('\n') {
                let i = choose|i: int| 0 <= i < all.len() && all[i] == '\n';
                if i < words[0].len() {
                    assert(words[0][i] == '\n');
                } else if i > words[0].len() {
                    assert(tail[i - words[0].len() - 1] == '\n');
                }
            }
        }
    }
}

/// `text` can be the value of a header as it stands: it stands on one line and has no white
/// space around it.
pub open spec fn is_value(text: Seq<char>) -> bool {
    is_tight(text) && !text.contains('\n')
}

/// The headers with which a bulb announces itself, each with its value if it has one.
pub open spec fn header_fields(a: AnnouncementView) -> Seq<(Seq<char>, Option<Seq<char>>)> {
    seq![
        ("location"@, Some("yeelight://"@ + a.addr)),
        ("id"@, a.id),
        ("model"@, a.model),
        ("fw_ver"@, a.fw_ver),
        (
            "power"@,
            match a.power {
                Some(true) => Some("on"@),
                Some(false) => Some("off"@),
                None => None,
            },
        ),
        (
            "bright"@,
            match a.brightness {
                Some(n) => Some(decimal(n as nat)),
                None => None,
            },
        ),
        ("name"@, a.name),
        (
            "support"@,
            if a.supported_methods.len() > 0 {
                Some(joined(a.supported_methods))
            } else {
                None
            },
        ),
    ]
}

/// The lines of the headers that have a value.
pub open spec fn field_lines(fields: Seq<(Seq<char>, Option<Seq<char>>)>) -> Seq<Seq<char>>
    decreases fields.len(),
{
    if fields.len() == 0 {
        Seq::empty()
    } else {
        let before = field_lines(fields.drop_last());
        match fields.last().1 {
            Some(value) => before.push(fields.last().0 + seq![':', ' '] + value + seq!['\r']),
            None => before,
        }
    }
}

/// Lines as a text: each ends with a line feed.
pub open spec fn text_of(lines: Seq<Seq<char>>) -> Seq<char>
    decreases lines.len(),
{
    if lines.len() == 0 {
        Seq::empty()
    } else {
        lines[0] + seq!['\n'] + text_of(lines.drop_first())
    }
}

/// The answer with which a bulb announces itself.
pub open spec fn answer_of(a: AnnouncementView) -> Seq<char> {
    text_of(seq!["HTTP/1.1 200 OK"@ + seq!['\r']] + field_lines(header_fields(a)))
}

/// What can be announced: texts that can be values of headers, and methods that are words.
pub open spec fn can_be_announced(a: AnnouncementView) -> bool {
    &&& is_value(a.addr)
    &&& a.id matches Some(id) ==> is_value(id)
    &&& a.model matches Some(model) ==> is_value(model)
    &&& a.fw_ver matches Some(fw_ver) ==> is_value(fw_ver)
    &&& a.name matches Some(name) ==> is_value(name)
    &&& are_words(a.supported_methods)
}

/// Lines that are put together come apart again.
pub proof fn lemma_lines_of_text(lines: Seq<Seq<char>>)
    requires
        forall|i: int| 0 <= i < lines.len() ==> !(#[trigger] lines[i]).contains('\n'),
    ensures
        lines_of(text_of(lines)) == lines,
    decreases lines.len(),
{
    if lines.len() == 0 {
        lemma_last_line(Seq::empty());
        assert(lines =~= Seq::empty());
    } else {
        let rest = lines.drop_first();
        assert(!lines[0].contains('\n'));
        assert forall|i: int| 0 <= i < rest.len() implies !(#[trigger] rest[i]).contains('\n') by {
            assert(!lines[i + 1].contains('\n'));
        }
        lemma_lines_of_text(rest);
        lemma_first_line(lines[0], text_of(rest));
        assert(lines =~= seq![lines[0]] + rest);
    }
}

/// `name` is made of small letters and underscores.
pub open spec fn is_name(name: Seq<char>) -> bool {
    &&& name.len() > 0
    &&& forall|i: int| 0 <= i < name.len() ==> 'a' <= #[trigger] name[i] <= 'z' || name[i] == '_'
}

/// The headers that have a value.
pub open spec fn field_headers(fields: Seq<(Seq<char>, Option<Seq<char>>)>) -> Seq<
    (Seq<char>, Seq<char>),
>
    decreases fields.len(),
{
    if fields.len() == 0 {
        Seq::empty()
    } else {
        let before = field_headers(fields.drop_last());
        match fields.last().1 {
            Some(value) => before + seq![(fields.last().0, value)],
            None => before,
        }
    }
}

/// The lines of headers hold these headers.
proof fn lemma_field_lines(fields: Seq<(Seq<char>, Option<Seq<char>>)>)
    requires
        forall|i: int|
            0 <= i < fields.len() ==> is_name((#[trigger] fields[i]).0) && (
            fields[i].1 matches Some(value) ==> is_value(value)),
    ensures
        headers_of(field_lines(fields)) == Some(field_headers(fields)),
        forall|i: int|
            0 <= i < field_lines(fields).len() ==> !(#[trigger] field_lines(fields)[i]).contains(
                '\n',
            ),
    decreases fields.len(),
{
    if fields.len() > 0 {
        let before = fields.drop_last();
        assert forall|i: int| 0 <= i < before.len() implies is_name((#[trigger] before[i]).0) && (
        before[i].1 matches Some(value) ==> is_value(value)) by {
            assert(before[i] == fields[i]);
        }
        lemma_field_lines(before);
        let (name, field) = fields.last();
        assert(fields[fields.len() - 1] == (name, field));
        if let Some(value) = field {
            let line = name + seq![':', ' '] + value + seq!['\r'];
            assert(line =~= Seq::empty() + name + Seq::empty() + seq![':'] + seq![' '] + value
                + seq!['\r']);
            assert(!name.contains(':'));
            lemma_header_line(Seq::empty(), name, Seq::empty(), seq![' '], value, seq!['\r']);
            assert(lowered(name) == name) by {
                lemma_name_is_lowered(name);
            }
            assert(field_lines(fields).drop_last() =~= field_lines(before));
            assert(!line.contains('\n')) by {
                if line.contains('\n') {
                    let i = choose|i: int| 0 <= i < line.len() && line[i] == '\n';
                    if i < name.len() {
                        assert(name[i] == '\n');
                    } else if name.len() + 2 <= i < name.len() + 2 + value.len() {
                        assert(value[i - name.len() - 2] == '\n');
                    }
                }
            }
        }
    }
}

/// A name of small letters and underscores is in lower case.
proof fn lemma_name_is_lowered(name: Seq<char>)
    requires
        is_name(name),
    ensures
        lowered(name) == name,
{
    assert(is_ascii_chars(name)) by {
        assert forall|i: int| 0 <= i < name.len() implies (#[trigger] name[i]) as u32 <= 0x7f by {
            assert('a' <= name[i] <= 'z' || name[i] == '_');
        }
    }
    lemma_lowered(name);
}

/// Headers hold no value of a name that is not among them.
proof fn lemma_field_absent(fields: Seq<(Seq<char>, Option<Seq<char>>)>, name: Seq<char>)
    requires
        forall|i: int| 0 <= i < fields.len() ==> (#[trigger] fields[i]).0 != name,
    ensures
        last_value(field_headers(fields), name) is None,
    decreases fields.len(),
{
    if fields.len() > 0 {
        let before = fields.drop_last();
        assert forall|i: int| 0 <= i < before.len() implies (#[trigger] before[i]).0 != name by {
            assert(before[i] == fields[i]);
        }
        lemma_field_absent(before, name);
        assert(fields[fields.len() - 1].0 != name);
        if let Some(value) = fields.last().1 {
            assert(field_headers(fields).drop_last() =~= field_headers(before));
        }
    }
}

/// Headers with different names hold the value of each.
proof fn lemma_field_value(fields: Seq<(Seq<char>, Option<Seq<char>>)>, i: int)
    requires
        0 <= i < fields.len(),
        forall|a: int, b: int|
            0 <= a < b < fields.len() ==> (#[trigger] fields[a]).0 != (#[trigger] fields[b]).0,
    ensures
        last_value(field_headers(fields), fields[i].0) == fields[i].1,
    decreases fields.len(),
{
    let before = fields.drop_last();
    assert forall|a: int, b: int| 0 <= a < b < before.len() implies (#[trigger] before[a]).0 != (
    #[trigger] before[b]).0 by {
        assert(fields[a].0 != fields[b].0);
    }
    if i < before.len() {
        lemma_field_value(before, i);
        assert(fields[i].0 != fields[fields.len() - 1].0);
    } else {
        assert forall|a: int| 0 <= a < before.len() implies (#[trigger] before[a]).0
            != fields[i].0 by {
            assert(fields[a].0 != fields[i].0);
        }
        lemma_field_absent(before, fields[i].0);
    }
    if let Some(value) = fields.last().1 {
        assert(field_headers(fields).drop_last() =~= field_headers(before));
    }
}

/// The names of the headers are names, and differ.
proof fn lemma_header_names()
    ensures
        header_names().len() == 8,
        forall|a: int, b: int|
            0 <= a < b < 8 ==> #[trigger] header_names()[a] != #[trigger] header_names()[b],
        forall|a: int| 0 <= a < 8 ==> is_name(#[trigger] header_names()[a]),
        "on"@ != "off"@,
        is_value("on"@),
        is_value("off"@),
{
    reveal_strlit("location");
    reveal_strlit("id");
    reveal_strlit("model");
    reveal_strlit("fw_ver");
    reveal_strlit("power");
    reveal_strlit("bright");
    reveal_strlit("name");
    reveal_strlit("support");
    reveal_strlit("on");
    reveal_strlit("off");
    assert("location"@.len() == 8 && "id"@.len() == 2 && "name"@.len() == 4);
    assert("model"@.len() == 5 && "power"@.len() == 5 && "support"@.len() == 7);
    assert("fw_ver"@.len() == 6 && "bright"@.len() == 6);
    assert("model"@[0] == 'm' && "power"@[0] == 'p');
    assert("fw_ver"@[0] == 'f' && "bright"@[0] == 'b');
    assert("on"@.len() == 2 && "off"@.len() == 3);
    assert(is_name("location"@));
    assert(is_name("id"@));
    assert(is_name("model"@));
    assert(is_name("fw_ver"@));
    assert(is_name("power"@));
    assert(is_name("bright"@));
    assert(is_name("name"@));
    assert(is_name("support"@));
}

/// A number in decimal can be a value.
proof fn lemma_decimal_is_value(n: nat)
    ensures
        is_value(decimal(n)),
{
    lemma_digits_only(n);
    assert(!decimal(n).contains('\n')) by {
        if decimal(n).contains('\n') {
            let i = choose|i: int| 0 <= i < decimal(n).len() && decimal(n)[i] == '\n';
            assert('0' <= decimal(n)[i] <= '9');
        }
    }
    assert('0' <= decimal(n)[0] <= '9');
    assert('0' <= decimal(n)[decimal(n).len() - 1] <= '9');
}

/// An address of the protocol can be a value.
proof fn lemma_location_is_value(addr: Seq<char>)
    requires
        is_value(addr),
    ensures
        is_value("yeelight://"@ + addr),
{
    reveal_strlit("yeelight://");
    let prefix = "yeelight://"@;
    let value = prefix + addr;
    assert(prefix.len() == 11 && prefix[0] == 'y' && prefix[10] == '/');
    assert(value[0] == 'y');
    if addr.len() > 0 {
        assert(value[value.len() - 1] == addr[addr.len() - 1]);
    } else {
        assert(value[value.len() - 1] == '/');
    }
    assert(!prefix.contains('\n'));
    assert(!value.contains('\n')) by {
        if value.contains('\n') {
            let i = choose|i: int| 0 <= i < value.len() && value[i] == '\n';
            if i < 11 {
                assert(prefix[i] == '\n');
            } else {
                assert(addr[i - 11] == '\n');
            }
        }
    }
}

/// The first line of an answer accepts the request.
proof fn lemma_first_line_accepts()
    ensures
        trimmed("HTTP/1.1 200 OK"@ + seq!['\r']) == "HTTP/1.1 200 OK"@,
        !("HTTP/1.1 200 OK"@ + seq!['\r']).contains('\n'),
{
    reveal_strlit("HTTP/1.1 200 OK");
    let ok = "HTTP/1.1 200 OK"@;
    assert(ok.len() == 15 && ok[0] == 'H' && ok[14] == 'K');
    lemma_trimmed_core(Seq::empty(), ok, seq!['\r']);
    assert(Seq::<char>::empty() + ok + seq!['\r'] =~= ok + seq!['\r']);
    assert(!ok.contains('\n'));
    let line = ok + seq!['\r'];
    assert(!line.contains('\n')) by {
        if line.contains('\n') {
            let i = choose|i: int| 0 <= i < line.len() && line[i] == '\n';
            if i < 15 {
                assert(ok[i] == '\n');
            }
        }
    }
}

/// A bulb that announces itself is announced as just that: what it writes of its address, id,
/// model, firmware, power, brightness, name and methods is what is read.
pub proof fn lemma_announced_back(a: AnnouncementView)
    requires
        can_be_announced(a),
    ensures
        announcement(answer_of(a)) == Some(a),
{
    let fields = header_fields(a);
    let first = "HTTP/1.1 200 OK"@ + seq!['\r'];
    let lines = seq![first] + field_lines(fields);
    lemma_header_names();
    let names = header_names();
    assert forall|i: int| 0 <= i < fields.len() implies (#[trigger] fields[i]).0 == names[i] by {}
    assert forall|i: int, j: int| 0 <= i < j < fields.len() implies (#[trigger] fields[i]).0 != (
    #[trigger] fields[j]).0 by {
        assert(names[i] != names[j]);
    }
    lemma_location_is_value(a.addr);
    if let Some(n) = a.brightness {
        lemma_decimal_is_value(n as nat);
        lemma_decimal_reads_back(n as nat, 255);
    }
    if a.supported_methods.len() > 0 {
        lemma_joined_is_value(a.supported_methods);
        lemma_joined_words(Seq::empty(), a.supported_methods);
        assert(Seq::<char>::empty() + joined(a.supported_methods) =~= joined(a.supported_methods));
    } else {
        assert(a.supported_methods =~= Seq::empty());
    }
    assert forall|i: int| 0 <= i < fields.len() implies is_name((#[trigger] fields[i]).0) && (
    fields[i].1 matches Some(value) ==> is_value(value)) by {
        assert(is_name(names[i]));
    }
    lemma_field_lines(fields);
    lemma_first_line_accepts();
    assert forall|i: int| 0 <= i < lines.len() implies !(#[trigger] lines[i]).contains('\n') by {
        if i > 0 {
            assert(lines[i] == field_lines(fields)[i - 1]);
        }
    }
    lemma_lines_of_text(lines);
    assert(lines.drop_first() =~= field_lines(fields));
    lemma_field_value(fields, 0);
    lemma_field_value(fields, 1);
    lemma_field_value(fields, 2);
    lemma_field_value(fields, 3);
    lemma_field_value(fields, 4);
    lemma_field_value(fields, 5);
    lemma_field_value(fields, 6);
    lemma_field_value(fields, 7);
    lemma_after_prefix("yeelight://"@ + a.addr, "yeelight://"@, a.addr);
    assert(announced(field_headers(fields))->0 =~= a);
}

/// A text announces the same in a datagram, and bytes that are no text announce nothing.
pub proof fn lemma_datagram(text: Seq<char>, bytes: Seq<u8>)
    ensures
        datagram_announces(encode_utf8(text)) == announcement(text),
        !valid_utf8(bytes) ==> datagram_announces(bytes) is None,
{
    encode_utf8_valid_utf8(text);
    encode_utf8_decode_utf8(text);
}

/// A bulb that answers in time, from an address that has not answered before, is found with all
/// that it announced, and last in the list.
pub proof fn lemma_bulb_is_found(
    heard: Seq<Heard>,
    a: AnnouncementView,
    at: nat,
    addr: DeviceAddr,
    timeout: nat,
)
    requires
        can_be_announced(a),
        forall|i: int| 0 <= i < heard.len() ==> (#[trigger] heard[i]).at <= timeout,
        at <= timeout,
        forall|k: int|
            0 <= k < collected(heard, timeout).len() ==> (#[trigger] collected(
                heard,
                timeout,
            )[k]).addr != addr,
    ensures
        ({
            let answer = Heard { at, bytes: encode_utf8(answer_of(a)), addr: Some(addr) };
            let known = collected(heard, timeout);
            let all = collected(heard.push(answer), timeout);
            &&& all.len() == known.len() + 1
            &&& forall|i: int| 0 <= i < known.len() ==> #[trigger] all[i] == known[i]
            &&& all.last().addr == addr
            &&& all.last().id == a.id && all.last().model == a.model
            &&& all.last().fw_ver == a.fw_ver && all.last().power == a.power
            &&& all.last().brightness == a.brightness && all.last().name == a.name
            &&& all.last().supported_methods == a.supported_methods
        }),
{
    let answer = Heard { at, bytes: encode_utf8(answer_of(a)), addr: Some(addr) };
    lemma_announced_back(a);
    lemma_datagram(answer_of(a), Seq::empty());
    lemma_not_over(heard, timeout);
    let known = collected(heard, timeout);
    assert(!has_addr(known, addr)) by {
        if has_addr(known, addr) {
            let k = choose|k: int| 0 <= k < known.len() && (#[trigger] known[k]).addr == addr;
            assert(collected(heard, timeout)[k].addr != addr);
        }
    }
    assert(heard.push(answer).drop_last() =~= heard);
    let answers = answers_in_time(heard, timeout).0;
    assert(answers.push((a, Some(addr))).drop_last() =~= answers);
}

/// The device that made an announcement is all that it announced, at its address.
pub proof fn lemma_device_is_announced(a: AnnouncementView, addr: DeviceAddr)
    ensures
        ({
            let device = a.device(addr);
            &&& device.addr == addr
            &&& device.id == a.id && device.model == a.model && device.fw_ver == a.fw_ver
            &&& device.power == a.power && device.brightness == a.brightness
            &&& device.name == a.name && device.supported_methods == a.supported_methods
        }),
{
}

/// Devices are listed in the order in which they answered first.
pub proof fn lemma_order_of_devices(
    answers: Seq<(AnnouncementView, Option<DeviceAddr>)>,
    k: int,
    l: int,
    i: int,
    j: int,
)
    requires
        0 <= k < l < found_devices(answers).len(),
        0 <= i < answers.len(),
        0 <= j < answers.len(),
        is_first(answers, i, found_devices(answers)[k]),
        is_first(answers, j, found_devices(answers)[l]),
    ensures
        i < j,
    decreases answers.len(),
{
    let before = answers.drop_last();
    let known = found_devices(before);
    let all = found_devices(answers);
    lemma_each_addr_once(before);
    assert(all[k] == known[k]);
    assert(first_answer(before, known[k]));
    let p = choose|p: int| 0 <= p < before.len() && #[trigger] is_first(before, p, known[k]);
    assert(answers[p] == before[p]);
    assert(i == p) by {
        if p < i {
            assert(answers[p].1 != Some(all[k].addr));
        } else if i < p {
            assert(before[i].1 != Some(all[k].addr));
        }
    }
    if l < known.len() {
        assert(all[l] == known[l]);
        assert(first_answer(before, known[l]));
        let q = choose|q: int| 0 <= q < before.len() && #[trigger] is_first(before, q, known[l]);
        assert(answers[q] == before[q]);
        assert(j == q) by {
            if q < j {
                assert(answers[q].1 != Some(all[l].addr));
            } else if j < q {
                assert(before[j].1 != Some(all[l].addr));
            }
        }
        lemma_order_of_devices(before, k, l, i, j);
    } else if j < before.len() {
        assert(before[j].1 is Some);
        assert(has_addr(known, all[l].addr));
    }
}

/// What contracts speak of is what an announcement and a device hold.
pub proof fn lemma_device_fields(found: Announcement, device: DiscoveredDevice)
    ensures
        found@.addr == found.addr@,
        found@.id == opt_view(found.id) && found@.model == opt_view(found.model),
        found@.fw_ver == opt_view(found.fw_ver) && found@.name == opt_view(found.name),
        found@.power == found.power && found@.brightness == found.brightness,
        found@.supported_methods == strings_view(found.supported_methods@),
        device@.addr == device.addr,
        device@.id == opt_view(device.id) && device@.model == opt_view(device.model),
        device@.fw_ver == opt_view(device.fw_ver) && device@.name == opt_view(device.name),
        device@.power == device.power && device@.brightness == device.brightness,
        device@.supported_methods == strings_view(device.supported_methods@),
{
}

/// The address of every answer is listed, just as it was given.
pub proof fn lemma_answer_is_listed(
    answers: Seq<(AnnouncementView, Option<DeviceAddr>)>,
    i: int,
)
    requires
        0 <= i < answers.len(),
        answers[i].1 is Some,
    ensures
        exists|k: int|
            0 <= k < found_devices(answers).len() && Some(
                (#[trigger] found_devices(answers)[k]).addr,
            ) == answers[i].1,
{
    lemma_each_addr_once(answers);
    assert(has_addr(found_devices(answers), answers[i].1->0));
}

} // verus!
