//! The headers of a request.
use vstd::prelude::*;
use vstd::string::{StrSliceExecFns, StringExecFns};

use crate::http::LINE_ENDING;

verus! {

/// The text of a decimal digit.
pub open spec fn digit_text(n: nat) -> Seq<char> {
    if n == 0 {
        "0"@
    } else if n == 1 {
        "1"@
    } else if n == 2 {
        "2"@
    } else if n == 3 {
        "3"@
    } else if n == 4 {
        "4"@
    } else if n == 5 {
        "5"@
    } else if n == 6 {
        "6"@
    } else if n == 7 {
        "7"@
    } else if n == 8 {
        "8"@
    } else {
        "9"@
    }
}

/// A number in decimal, without leading zeros.
pub open spec fn decimal(n: nat) -> Seq<char>
    decreases n,
{
    if n < 10 {
        digit_text(n)
    } else {
        decimal(n / 10) + digit_text(n % 10)
    }
}

/// Appends a number in decimal.
fn push_decimal(text: &mut String, n: u64)
    ensures
        final(text)@ == old(text)@ + decimal(n as nat),
    decreases n,
{
    if n >= 10 {
        push_decimal(text, n / 10);
    }
    match n % 10 {
        0 => text.append("0"),
        1 => text.append("1"),
        2 => text.append("2"),
        3 => text.append("3"),
        4 => text.append("4"),
        5 => text.append("5"),
        6 => text.append("6"),
        7 => text.append("7"),
        8 => text.append("8"),
        _ => text.append("9"),
    }
    assert(text@ =~= old(text)@ + decimal(n as nat));
}

/// The host that a request is for.
#[derive(PartialEq, Eq, Debug)]
pub struct Host {
    pub hostname: String,
    pub port: Option<u16>,
}

/// The value of a [`Host`].
pub struct HostView {
    pub hostname: Seq<char>,
    pub port: Option<u16>,
}

impl View for Host {
    type V = HostView;

    open spec fn view(&self) -> HostView {
        HostView { hostname: self.hostname@, port: self.port }
    }
}

impl HostView {
    /// The value of the header. The ports that HTTP and HTTPS use anyway are
    /// left out.
    pub open spec fn text(self) -> Seq<char> {
        match self.port {
            Some(port) if port != 80 && port != 443 => self.hostname + ":"@ + decimal(port as nat),
            _ => self.hostname,
        }
    }
}

/// How a body is encoded on its way.
#[derive(PartialEq, Eq, Debug)]
pub enum Encoding {
    Chunked,
    Gzip,
    Deflate,
    Compress,
    /// An encoding by its name.
    EncodingExt(String),
}

impl Encoding {
    /// The name of the encoding.
    pub open spec fn text(self) -> Seq<char> {
        match self {
            Encoding::Chunked => "chunked"@,
            Encoding::Gzip => "gzip"@,
            Encoding::Deflate => "deflate"@,
            Encoding::Compress => "compress"@,
            Encoding::EncodingExt(name) => name@,
        }
    }

    /// Returns the name of the encoding.
    pub fn as_str(&self) -> (text: &str)
        ensures
            text@ == self.text(),
    {
        match self {
            Encoding::Chunked => "chunked",
            Encoding::Gzip => "gzip",
            Encoding::Deflate => "deflate",
            Encoding::Compress => "compress",
            Encoding::EncodingExt(name) => name.as_str(),
        }
    }
}

/// The names of encodings, in the order in which they were applied, with a
/// comma between them.
pub open spec fn encodings_text(encodings: Seq<Encoding>) -> Seq<char>
    decreases encodings.len(),
{
    if encodings.len() == 0 {
        Seq::empty()
    } else if encodings.len() == 1 {
        encodings[0].text()
    } else {
        encodings_text(encodings.drop_last()) + ", "@ + encodings.last().text()
    }
}

/// One line of a head.
pub open spec fn field_text(name: Seq<char>, value: Seq<char>) -> Seq<char> {
    name + ": "@ + value + LINE_ENDING@
}

/// The lines for headers without a type of their own.
pub open spec fn raw_text(fields: Seq<(Seq<char>, Seq<char>)>) -> Seq<char>
    decreases fields.len(),
{
    if fields.len() == 0 {
        Seq::empty()
    } else {
        raw_text(fields.drop_last()) + field_text(fields.last().0, fields.last().1)
    }
}

/// The number of a character, the same for both cases of a letter from A to
/// Z.
pub open spec fn folded(c: char) -> int {
    if 0x41 <= c as int <= 0x5a {
        c as int + 0x20
    } else {
        c as int
    }
}

/// Whether two names are names of the same header: case makes no difference.
pub open spec fn same_name(a: Seq<char>, b: Seq<char>) -> bool {
    a.len() == b.len() && forall|i: int|
        #![trigger a[i]]
        #![trigger b[i]]
        0 <= i < a.len() ==> folded(a[i]) == folded(b[i])
}

/// Whether a header has a type of its own.
pub open spec fn is_typed(name: Seq<char>) -> bool {
    same_name(name, "Host"@) || same_name(name, "Content-Length"@) || same_name(
        name,
        "Transfer-Encoding"@,
    )
}

/// The headers of a request: some with a type of their own, and any others by
/// name and value. No header occurs twice.
#[derive(Debug)]
pub struct Headers {
    host: Option<Host>,
    content_length: Option<u64>,
    transfer_encoding: Option<Vec<Encoding>>,
    raw: Vec<(String, String)>,
}

/// The value of [`Headers`].
pub struct HeadersView {
    pub host: Option<HostView>,
    pub content_length: Option<u64>,
    pub transfer_encoding: Option<Seq<Encoding>>,
    pub raw: Seq<(Seq<char>, Seq<char>)>,
}

impl View for Headers {
    type V = HeadersView;

    closed spec fn view(&self) -> HeadersView {
        HeadersView {
            host: match self.host {
                Some(host) => Some(host@),
                None => None,
            },
            content_length: self.content_length,
            transfer_encoding: match self.transfer_encoding {
                Some(encodings) => Some(encodings@),
                None => None,
            },
            raw: self.raw@.map_values(|field: (String, String)| (field.0@, field.1@)),
        }
    }
}

impl HeadersView {
    /// No headers at all.
    pub open spec fn none() -> HeadersView {
        HeadersView {
            host: None,
            content_length: None,
            transfer_encoding: None,
            raw: Seq::empty(),
        }
    }

    /// Whether no header occurs twice.
    pub open spec fn distinct(self) -> bool {
        &&& forall|i: int| 0 <= i < self.raw.len() ==> !is_typed(#[trigger] self.raw[i].0)
        &&& forall|i: int, j: int|
            0 <= i < j < self.raw.len() ==> !same_name(
                #[trigger] self.raw[i].0,
                #[trigger] self.raw[j].0,
            )
    }

    /// The headers with one more encoding behind those that they have.
    pub open spec fn with_encoding(self, encoding: Encoding) -> HeadersView {
        HeadersView {
            transfer_encoding: Some(
                self.transfer_encoding.unwrap_or(Seq::empty()).push(encoding),
            ),
            ..self
        }
    }

    /// Whether a header is at a place among those without a type of their
    /// own, and at no place before it.
    pub open spec fn is_first(self, name: Seq<char>, place: int) -> bool {
        &&& 0 <= place < self.raw.len()
        &&& same_name(self.raw[place].0, name)
        &&& forall|i: int| 0 <= i < place ==> !same_name(#[trigger] self.raw[i].0, name)
    }

    /// Whether a header is among those without a type of their own.
    pub open spec fn has_raw(self, name: Seq<char>) -> bool {
        exists|i: int| 0 <= i < self.raw.len() && same_name(#[trigger] self.raw[i].0, name)
    }

    /// The value of a header without a type of its own.
    pub open spec fn raw_value(self, name: Seq<char>) -> Seq<char> {
        self.raw[choose|place: int| self.is_first(name, place)].1
    }

    /// The headers with another value for one without a type of its own.
    pub open spec fn with_raw(self, name: Seq<char>, value: Seq<char>) -> HeadersView {
        HeadersView {
            raw: if self.has_raw(name) {
                self.raw.update(choose|place: int| self.is_first(name, place), (name, value))
            } else {
                self.raw.push((name, value))
            },
            ..self
        }
    }

    /// The lines for the headers with a type of their own.
    pub open spec fn typed_text(self) -> Seq<char> {
        let host = match self.host {
            Some(host) => field_text("Host"@, host.text()),
            None => Seq::empty(),
        };
        let content_length = match self.content_length {
            Some(length) => field_text("Content-Length"@, decimal(length as nat)),
            None => Seq::empty(),
        };
        let transfer_encoding = match self.transfer_encoding {
            Some(encodings) => field_text("Transfer-Encoding"@, encodings_text(encodings)),
            None => Seq::empty(),
        };
        host + content_length + transfer_encoding
    }

    /// The lines for all headers.
    pub open spec fn text(self) -> Seq<char> {
        self.typed_text() + raw_text(self.raw)
    }
}

/// There is only one first place.
proof fn lemma_one_first(headers: HeadersView, name: Seq<char>, place: int)
    requires
        headers.is_first(name, place),
    ensures
        headers.has_raw(name),
        place == choose|p: int| headers.is_first(name, p),
{
    let other = choose|p: int| headers.is_first(name, p);
    assert(headers.is_first(name, other));
    if other < place {
        assert(!same_name(headers.raw[other].0, name));
    } else if place < other {
        assert(!same_name(headers.raw[place].0, name));
    }
}

/// A header that is set does not occur twice.
proof fn lemma_still_distinct(headers: HeadersView, name: Seq<char>, value: Seq<char>)
    requires
        headers.distinct(),
        !is_typed(name),
    ensures
        headers.with_raw(name, value).distinct(),
{
    let after = headers.with_raw(name, value);
    if headers.has_raw(name) {
        let some = choose|i: int|
            0 <= i < headers.raw.len() && same_name(#[trigger] headers.raw[i].0, name);
        lemma_first_exists(headers, name, some);
        let place = choose|p: int| headers.is_first(name, p);
        assert forall|i: int, j: int| 0 <= i < j < after.raw.len() implies !same_name(
            #[trigger] after.raw[i].0,
            #[trigger] after.raw[j].0,
        ) by {
            lemma_same_name(headers.raw[i].0, name, headers.raw[j].0);
            lemma_same_name(headers.raw[j].0, name, headers.raw[i].0);
            lemma_same_name(headers.raw[place].0, name, headers.raw[j].0);
            lemma_same_name(headers.raw[i].0, name, headers.raw[place].0);
        }
    }
}

/// Where there is a place for a header, there is a first one.
proof fn lemma_first_exists(headers: HeadersView, name: Seq<char>, place: int)
    requires
        0 <= place < headers.raw.len(),
        same_name(headers.raw[place].0, name),
    ensures
        exists|p: int| headers.is_first(name, p),
    decreases place,
{
    if !headers.is_first(name, place) {
        let earlier = choose|i: int|
            0 <= i < place && same_name(#[trigger] headers.raw[i].0, name);
        lemma_first_exists(headers, name, earlier);
    }
}

/// Having the same name carries over, in either order.
proof fn lemma_same_name(a: Seq<char>, b: Seq<char>, c: Seq<char>)
    ensures
        same_name(a, b) == same_name(b, a),
        same_name(a, b) && same_name(b, c) ==> same_name(a, c),
{
    if same_name(a, b) && same_name(b, c) {
        assert forall|i: int| 0 <= i < a.len() implies folded(#[trigger] a[i]) == folded(c[i]) by {
            assert(folded(a[i]) == folded(b[i]));
        }
    }
}

/// A header that was set is read back, whatever the case of its name, and
/// every other header is as it was before.
pub proof fn law_raw_read_back(
    headers: HeadersView,
    name: Seq<char>,
    value: Seq<char>,
    other: Seq<char>,
)
    ensures
        same_name(other, name) ==> headers.with_raw(name, value).has_raw(other)
            && headers.with_raw(name, value).raw_value(other) == value,
        !same_name(other, name) ==> headers.with_raw(name, value).has_raw(other)
            == headers.has_raw(other),
        !same_name(other, name) && headers.has_raw(other) ==> headers.with_raw(
            name,
            value,
        ).raw_value(other) == headers.raw_value(other),
{
    let after = headers.with_raw(name, value);
    lemma_same_name(other, name, other);
    let place = if headers.has_raw(name) {
        let some = choose|i: int|
            0 <= i < headers.raw.len() && same_name(#[trigger] headers.raw[i].0, name);
        lemma_first_exists(headers, name, some);
        choose|p: int| headers.is_first(name, p)
    } else {
        headers.raw.len() as int
    };
    assert(after.raw[place] == (name, value));
    if same_name(other, name) {
        assert forall|i: int| 0 <= i < place implies !same_name(
            #[trigger] after.raw[i].0,
            other,
        ) by {
            assert(!same_name(headers.raw[i].0, name));
            lemma_same_name(headers.raw[i].0, other, name);
        }
        assert(after.is_first(other, place));
        lemma_one_first(after, other, place);
    } else {
        if place < headers.raw.len() {
            lemma_same_name(other, headers.raw[place].0, name);
            lemma_same_name(headers.raw[place].0, other, name);
        }
        if headers.has_raw(other) {
            let some = choose|i: int|
                0 <= i < headers.raw.len() && same_name(#[trigger] headers.raw[i].0, other);
            lemma_first_exists(headers, other, some);
            let first = choose|p: int| headers.is_first(other, p);
            assert(after.is_first(other, first)) by {
                assert forall|i: int| 0 <= i < first implies !same_name(
                    #[trigger] after.raw[i].0,
                    other,
                ) by {
                    assert(!same_name(headers.raw[i].0, other));
                }
            }
            lemma_one_first(after, other, first);
        } else if after.has_raw(other) {
            let i = choose|i: int|
                0 <= i < after.raw.len() && same_name(#[trigger] after.raw[i].0, other);
            assert(i != place);
            assert(same_name(headers.raw[i].0, other));
        }
    }
}

/// Folds the case of a character.
fn fold(c: char) -> (n: u32)
    ensures
        n == folded(c),
{
    let n: u32 = c as u32;
    if 0x41 <= n && n <= 0x5a {
        n + 0x20
    } else {
        n
    }
}

/// Tests whether two names are names of the same header.
fn have_same_name(a: &str, b: &str) -> (same: bool)
    ensures
        same == same_name(a@, b@),
{
    let length: usize = a.unicode_len();
    if length != b.unicode_len() {
        return false;
    }
    let mut i: usize = 0;
    while i < length
        invariant
            i <= length,
            length == a@.len(),
            length == b@.len(),
            forall|j: int|
                #![trigger a@[j]]
                #![trigger b@[j]]
                0 <= j < i ==> folded(a@[j]) == folded(b@[j]),
        decreases length - i,
    {
        if fold(a.get_char(i)) != fold(b.get_char(i)) {
            return false;
        }
        i = i + 1;
    }
    true
}

/// Appends one line of a head.
fn push_field(text: &mut String, name: &str, value: &str)
    ensures
        final(text)@ == old(text)@ + field_text(name@, value@),
{
    text.append(name);
    text.append(": ");
    text.append(value);
    text.append(LINE_ENDING);
    assert(text@ =~= old(text)@ + field_text(name@, value@));
}

impl Host {
    /// Returns the value of the header.
    pub fn to_text(&self) -> (text: String)
        ensures
            text@ == self@.text(),
    {
        let mut text: String = self.hostname.clone();
        if let Some(port) = self.port {
            if port != 80 && port != 443 {
                text.append(":");
                push_decimal(&mut text, port as u64);
            }
        }
        text
    }
}

/// Returns the names of encodings with a comma between them.
fn join_encodings(encodings: &Vec<Encoding>) -> (text: String)
    ensures
        text@ == encodings_text(encodings@),
{
    let mut text: String = String::new();
    let mut i: usize = 0;
    while i < encodings.len()
        invariant
            i <= encodings@.len(),
            text@ == encodings_text(encodings@.take(i as int)),
        decreases encodings.len() - i,
    {
        if i > 0 {
            text.append(", ");
        }
        text.append(encodings[i].as_str());
        i = i + 1;
        assert(encodings@.take(i as int).drop_last() =~= encodings@.take(i - 1));
        assert(text@ =~= encodings_text(encodings@.take(i as int)));
    }
    assert(encodings@.take(i as int) =~= encodings@);
    text
}

impl Headers {
    /// Creates a set of headers without any.
    pub fn new() -> (headers: Headers)
        ensures
            headers@ == HeadersView::none(),
            headers@.distinct(),
    {
        let headers = Headers {
            host: None,
            content_length: None,
            transfer_encoding: None,
            raw: Vec::new(),
        };
        assert(headers@.raw =~= HeadersView::none().raw);
        headers
    }

    /// Returns the `Host` header.
    pub fn host(&self) -> (host: Option<&Host>)
        ensures
            match host {
                Some(h) => self@.host == Some(h@),
                None => self@.host is None,
            },
    {
        self.host.as_ref()
    }

    /// Sets the `Host` header.
    pub fn set_host(&mut self, host: Host)
        ensures
            final(self)@ == (HeadersView { host: Some(host@), ..old(self)@ }),
    {
        self.host = Some(host);
    }

    /// Returns the `Content-Length` header.
    pub fn content_length(&self) -> (length: Option<u64>)
        ensures
            length == self@.content_length,
    {
        self.content_length
    }

    /// Sets the `Content-Length` header.
    pub fn set_content_length(&mut self, length: u64)
        ensures
            final(self)@ == (HeadersView { content_length: Some(length), ..old(self)@ }),
    {
        self.content_length = Some(length);
    }

    /// Returns the `Transfer-Encoding` header: the encodings of the body, in
    /// the order in which they were applied.
    pub fn transfer_encoding(&self) -> (encodings: Option<&Vec<Encoding>>)
        ensures
            match encodings {
                Some(e) => self@.transfer_encoding == Some(e@),
                None => self@.transfer_encoding is None,
            },
    {
        self.transfer_encoding.as_ref()
    }

    /// Sets the `Transfer-Encoding` header.
    pub fn set_transfer_encoding(&mut self, encodings: Vec<Encoding>)
        ensures
            final(self)@ == (HeadersView { transfer_encoding: Some(encodings@), ..old(self)@ }),
    {
        self.transfer_encoding = Some(encodings);
    }

    /// Adds an encoding behind those that the `Transfer-Encoding` header has.
    pub fn add_transfer_encoding(&mut self, encoding: Encoding)
        ensures
            final(self)@ == old(self)@.with_encoding(encoding),
    {
        let mut encodings: Vec<Encoding> = match self.transfer_encoding.take() {
            Some(encodings) => encodings,
            None => Vec::new(),
        };
        encodings.push(encoding);
        self.transfer_encoding = Some(encodings);
        assert(self@.transfer_encoding->0 =~= old(self)@.with_encoding(
            encoding,
        ).transfer_encoding->0);
    }

    /// Returns the place of a header among those without a type of their own.
    fn find_raw(&self, name: &str) -> (place: Option<usize>)
        ensures
            match place {
                Some(i) => self@.is_first(name@, i as int),
                None => !self@.has_raw(name@),
            },
    {
        let mut i: usize = 0;
        while i < self.raw.len()
            invariant
                i <= self.raw@.len(),
                forall|j: int| 0 <= j < i ==> !same_name(#[trigger] self@.raw[j].0, name@),
            decreases self.raw.len() - i,
        {
            assert(self@.raw[i as int] == (self.raw@[i as int].0@, self.raw@[i as int].1@));
            if have_same_name(self.raw[i].0.as_str(), name) {
                return Some(i);
            }
            i = i + 1;
        }
        None
    }

    /// Returns the value of a header without a type of its own.
    pub fn get_raw(&self, name: &str) -> (value: Option<&String>)
        ensures
            match value {
                Some(v) => self@.has_raw(name@) && v@ == self@.raw_value(name@),
                None => !self@.has_raw(name@),
            },
    {
        match self.find_raw(name) {
            Some(i) => {
                proof {
                    lemma_one_first(self@, name@, i as int);
                }
                Some(&self.raw[i].1)
            },
            None => None,
        }
    }

    /// Sets a header without a type of its own. It takes the place of one
    /// with the same name. Returns whether it was set: a header with a type of
    /// its own is not.
    pub fn set_raw(&mut self, name: String, value: String) -> (set: bool)
        ensures
            set == !is_typed(name@),
            final(self)@ == (if set {
                old(self)@.with_raw(name@, value@)
            } else {
                old(self)@
            }),
            old(self)@.distinct() ==> final(self)@.distinct(),
    {
        if have_same_name(name.as_str(), "Host") || have_same_name(name.as_str(), "Content-Length")
            || have_same_name(name.as_str(), "Transfer-Encoding") {
            return false;
        }
        match self.find_raw(name.as_str()) {
            Some(i) => {
                proof {
                    lemma_one_first(self@, name@, i as int);
                }
                self.raw.set(i, (name, value));
            },
            None => {
                self.raw.push((name, value));
            },
        }
        assert(self@.raw =~= old(self)@.with_raw(name@, value@).raw);
        proof {
            if old(self)@.distinct() {
                lemma_still_distinct(old(self)@, name@, value@);
            }
        }
        true
    }

    /// Returns the lines for all headers.
    pub fn to_text(&self) -> (text: String)
        ensures
            text@ == self@.text(),
    {
        let mut text: String = String::new();
        if let Some(host) = &self.host {
            push_field(&mut text, "Host", host.to_text().as_str());
        }
        if let Some(length) = self.content_length {
            let mut number: String = String::new();
            push_decimal(&mut number, length);
            assert(number@ =~= decimal(length as nat));
            push_field(&mut text, "Content-Length", number.as_str());
        }
        if let Some(encodings) = &self.transfer_encoding {
            push_field(&mut text, "Transfer-Encoding", join_encodings(encodings).as_str());
        }
        assert(text@ =~= self@.typed_text());
        let mut i: usize = 0;
        assert(raw_text(self@.raw.take(0)) =~= Seq::<char>::empty());
        while i < self.raw.len()
            invariant
                i <= self.raw@.len(),
                text@ == self@.typed_text() + raw_text(self@.raw.take(i as int)),
            decreases self.raw.len() - i,
        {
            push_field(&mut text, self.raw[i].0.as_str(), self.raw[i].1.as_str());
            assert(self@.raw[i as int] == (self.raw@[i as int].0@, self.raw@[i as int].1@));
            i = i + 1;
            assert(self@.raw.take(i as int).drop_last() =~= self@.raw.take(i - 1));
            assert(text@ =~= self@.typed_text() + raw_text(self@.raw.take(i as int)));
        }
        assert(self@.raw.take(i as int) =~= self@.raw);
        text
    }
}

/// The number that decimal digits stand for.
pub open spec fn decimal_value(text: Seq<char>) -> int
    decreases text.len(),
{
    if text.len() == 0 {
        0
    } else {
        10 * decimal_value(text.drop_last()) + (text.last() as int - '0' as int)
    }
}

/// The text of a digit is the one character for it.
proof fn lemma_digit_text(n: nat)
    requires
        n < 10,
    ensures
        digit_text(n).len() == 1,
        digit_text(n)[0] as int == '0' as int + n,
{
    reveal_strlit("0");
    reveal_strlit("1");
    reveal_strlit("2");
    reveal_strlit("3");
    reveal_strlit("4");
    reveal_strlit("5");
    reveal_strlit("6");
    reveal_strlit("7");
    reveal_strlit("8");
    reveal_strlit("9");
}

/// A number in decimal is nothing but digits, has no leading zero, and gives
/// the number back.
pub proof fn law_decimal_read_back(n: nat)
    ensures
        decimal(n).len() > 0,
        forall|i: int| 0 <= i < decimal(n).len() ==> '0' <= #[trigger] decimal(n)[i] <= '9',
        decimal(n)[0] == '0' ==> n == 0 && decimal(n).len() == 1,
        decimal_value(decimal(n)) == n,
    decreases n,
{
    reveal_with_fuel(decimal_value, 2);
    lemma_digit_text(n % 10);
    if n < 10 {
        assert(decimal(n).drop_last() =~= Seq::<char>::empty());
    } else {
        law_decimal_read_back(n / 10);
        assert(decimal(n).drop_last() =~= decimal(n / 10));
    }
}

/// The value of a `Host` header is the name of the host. The port stands
/// behind it, after a colon, unless there is none or it is one of the two
/// usual ones.
pub proof fn law_host_text(host: Host)
    ensures
        host.port is None || host.port == Some(80u16) || host.port == Some(443u16) ==> host@.text()
            == host.hostname@,
        host.port matches Some(port) ==> port != 80 && port != 443 ==> host@.text()
            == host.hostname@ + ":"@ + decimal(port as nat),
{
}

/// An encoding goes out under its own name.
pub proof fn law_encoding_text(encoding: Encoding)
    ensures
        match encoding {
            Encoding::Chunked => encoding.text() == "chunked"@,
            Encoding::Gzip => encoding.text() == "gzip"@,
            Encoding::Deflate => encoding.text() == "deflate"@,
            Encoding::Compress => encoding.text() == "compress"@,
            Encoding::EncodingExt(name) => encoding.text() == name@,
        },
{
}

/// One more encoding stands behind the others, after a comma and a space.
pub proof fn law_encodings_text(encodings: Seq<Encoding>, next: Encoding)
    ensures
        encodings_text(Seq::empty()).len() == 0,
        encodings.len() == 0 ==> encodings_text(encodings.push(next)) == next.text(),
        encodings.len() > 0 ==> encodings_text(encodings.push(next)) == encodings_text(encodings)
            + ", "@ + next.text(),
{
    assert(encodings.push(next).drop_last() =~= encodings);
}

/// Every header is one line, with its name, a colon and a space, and its
/// value. The lines of several headers stand one after the other, and no
/// header changes the line of another.
pub proof fn law_lines(headers: HeadersView, name: Seq<char>, value: Seq<char>)
    ensures
        HeadersView::none().text().len() == 0,
        headers.text() == (HeadersView { host: headers.host, ..HeadersView::none() }).text() + (
        HeadersView { content_length: headers.content_length, ..HeadersView::none() }).text() + (
        HeadersView { transfer_encoding: headers.transfer_encoding, ..HeadersView::none() }).text()
            + (HeadersView { raw: headers.raw, ..HeadersView::none() }).text(),
        (HeadersView { raw: headers.raw.push((name, value)), ..headers }).text() == headers.text()
            + name + ": "@ + value + "\r\n"@,
{
    let only_host = HeadersView { host: headers.host, ..HeadersView::none() };
    let only_length = HeadersView {
        content_length: headers.content_length,
        ..HeadersView::none()
    };
    let only_encodings = HeadersView {
        transfer_encoding: headers.transfer_encoding,
        ..HeadersView::none()
    };
    let only_raw = HeadersView { raw: headers.raw, ..HeadersView::none() };
    assert(headers.text() =~= only_host.text() + only_length.text() + only_encodings.text()
        + only_raw.text());
    let longer = HeadersView { raw: headers.raw.push((name, value)), ..headers };
    assert(longer.raw.drop_last() =~= headers.raw);
    assert(longer.typed_text() == headers.typed_text());
    assert(longer.text() =~= headers.text() + name + ": "@ + value + "\r\n"@);
}

/// A set without headers has none of any kind.
pub proof fn law_no_headers()
    ensures
        HeadersView::none().host is None,
        HeadersView::none().content_length is None,
        HeadersView::none().transfer_encoding is None,
        HeadersView::none().raw.len() == 0,
{
}

/// The lines of the headers with a type of their own.
pub proof fn law_typed_lines(host: HostView, length: u64, encodings: Seq<Encoding>)
    ensures
        (HeadersView { host: Some(host), ..HeadersView::none() }).text() == "Host"@ + ": "@
            + host.text() + "\r\n"@,
        (HeadersView { content_length: Some(length), ..HeadersView::none() }).text()
            == "Content-Length"@ + ": "@ + decimal(length as nat) + "\r\n"@,
        (HeadersView { transfer_encoding: Some(encodings), ..HeadersView::none() }).text()
            == "Transfer-Encoding"@ + ": "@ + encodings_text(encodings) + "\r\n"@,
{
    assert((HeadersView { host: Some(host), ..HeadersView::none() }).text() =~= "Host"@ + ": "@
        + host.text() + "\r\n"@);
    assert((HeadersView { content_length: Some(length), ..HeadersView::none() }).text()
        =~= "Content-Length"@ + ": "@ + decimal(length as nat) + "\r\n"@);
    assert((HeadersView { transfer_encoding: Some(encodings), ..HeadersView::none() }).text()
        =~= "Transfer-Encoding"@ + ": "@ + encodings_text(encodings) + "\r\n"@);
}

/// Two names are the same where they are as long as each other, and differ at
/// no place but in the case of a letter from A to Z.
pub proof fn law_same_name(a: Seq<char>, b: Seq<char>)
    ensures
        same_name(a, b) <==> a.len() == b.len() && forall|i: int|
            0 <= i < a.len() ==> {
                ||| #[trigger] a[i] == b[i]
                ||| 'A' <= a[i] <= 'Z' && b[i] as int == a[i] as int + 32
                ||| 'A' <= b[i] <= 'Z' && a[i] as int == b[i] as int + 32
            },
{
    if same_name(a, b) {
        assert forall|i: int| 0 <= i < a.len() implies {
            ||| #[trigger] a[i] == b[i]
            ||| 'A' <= a[i] <= 'Z' && b[i] as int == a[i] as int + 32
            ||| 'A' <= b[i] <= 'Z' && a[i] as int == b[i] as int + 32
        } by {
            assert(folded(a[i]) == folded(b[i]));
        }
    }
    if a.len() == b.len() && forall|i: int|
        0 <= i < a.len() ==> {
            ||| #[trigger] a[i] == b[i]
            ||| 'A' <= a[i] <= 'Z' && b[i] as int == a[i] as int + 32
            ||| 'A' <= b[i] <= 'Z' && a[i] as int == b[i] as int + 32
        } {
        assert forall|i: int| 0 <= i < a.len() implies folded(#[trigger] a[i]) == folded(b[i]) by {}
        assert forall|i: int| 0 <= i < a.len() implies folded(a[i]) == folded(#[trigger] b[i]) by {
            assert(a[i] == a[i]);
        }
    }
}

/// Three headers have a type of their own, under any case of their names.
pub proof fn law_typed_names(name: Seq<char>)
    ensures
        is_typed(name) <==> same_name(name, "Host"@) || same_name(name, "Content-Length"@)
            || same_name(name, "Transfer-Encoding"@),
{
}

/// What setting a header without a type of its own does to the list of them:
/// a new one goes to the end, and one that is there gets its name and value
/// at its place. All others stay as they are, and so do the headers with a
/// type of their own.
pub proof fn law_set_raw(headers: HeadersView, name: Seq<char>, value: Seq<char>)
    ensures
        ({
            let after = headers.with_raw(name, value);
            let known = exists|i: int|
                0 <= i < headers.raw.len() && same_name(#[trigger] headers.raw[i].0, name);
            &&& after.host == headers.host
            &&& after.content_length == headers.content_length
            &&& after.transfer_encoding == headers.transfer_encoding
            &&& !known ==> after.raw == headers.raw.push((name, value))
            &&& known ==> exists|place: int|
                {
                    &&& 0 <= place < headers.raw.len()
                    &&& same_name(headers.raw[place].0, name)
                    &&& #[trigger] headers.raw.update(place, (name, value)) == after.raw
                }
        }),
{
    if headers.has_raw(name) {
        let some = choose|i: int|
            0 <= i < headers.raw.len() && same_name(#[trigger] headers.raw[i].0, name);
        lemma_first_exists(headers, name, some);
        let place = choose|p: int| headers.is_first(name, p);
        assert(headers.raw.update(place, (name, value)) == headers.with_raw(name, value).raw);
    }
}

/// Adding an encoding puts it behind those that are there, and leaves all
/// other headers as they are.
pub proof fn law_add_encoding(headers: HeadersView, encoding: Encoding)
    ensures
        ({
            let after = headers.with_encoding(encoding);
            &&& after.host == headers.host
            &&& after.content_length == headers.content_length
            &&& after.raw == headers.raw
            &&& headers.transfer_encoding is None ==> after.transfer_encoding == Some(
                seq![encoding],
            )
            &&& headers.transfer_encoding matches Some(encodings) ==> after.transfer_encoding
                == Some(encodings + seq![encoding])
        }),
{
    let before = headers.transfer_encoding.unwrap_or(Seq::empty());
    if headers.transfer_encoding is None {
        assert(before.push(encoding) =~= seq![encoding]);
    } else {
        assert(before.push(encoding) =~= before + seq![encoding]);
    }
}

/// A header without a type of its own is there where one of the list has its
/// name, and its value is that of the first that has it.
pub proof fn law_get_raw(headers: HeadersView, name: Seq<char>)
    ensures
        headers.has_raw(name) <==> exists|i: int|
            0 <= i < headers.raw.len() && same_name(#[trigger] headers.raw[i].0, name),
        forall|i: int|
            0 <= i < headers.raw.len() && same_name(#[trigger] headers.raw[i].0, name) && (
            forall|j: int| 0 <= j < i ==> !same_name(#[trigger] headers.raw[j].0, name))
                ==> headers.raw_value(name) == headers.raw[i].1,
{
    assert forall|i: int|
        0 <= i < headers.raw.len() && same_name(#[trigger] headers.raw[i].0, name) && (forall|
            j: int,
        |
            0 <= j < i ==> !same_name(#[trigger] headers.raw[j].0, name)) implies headers.raw_value(
        name,
    ) == headers.raw[i].1 by {
        assert(headers.is_first(name, i));
        lemma_one_first(headers, name, i);
    }
}

} // verus!
