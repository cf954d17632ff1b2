use vstd::prelude::*;

verus! {

/// DNS-SD service type under which the receiver is announced.
pub const SERVICE_TYPE: &'static str = "_audiocast._udp.local.";

/// Base name of the announced service instance.
pub const SERVICE_NAME: &'static str = "AudioCast Desktop";

/// Protocol version announced in the TXT record.
pub const SERVICE_VERSION: &'static str = "1.0";

/// Address given for the announced host: every interface.
pub const ANNOUNCED_ADDRESS: &'static str = "0.0.0.0";

/// Instance name: the base name alone for an empty host name, otherwise
/// the base name followed by the host name in parentheses.
pub open spec fn display_name_spec(hostname: Seq<char>) -> Seq<char> {
    if hostname.len() == 0 {
        SERVICE_NAME@
    } else {
        SERVICE_NAME@ + " ("@ + hostname + ")"@
    }
}

/// Host name under the `.local.` domain.
pub open spec fn host_name_spec(hostname: Seq<char>) -> Seq<char> {
    hostname + ".local."@
}

/// Character of a decimal digit.
pub open spec fn digit_char(d: nat) -> char
    recommends
        d < 10,
{
    ((d + 48) as u8) as char
}

/// Decimal text of `n`, most significant digit first, without leading zeros.
pub open spec fn decimal(n: nat) -> Seq<char>
    decreases n,
{
    if n < 10 {
        seq![digit_char(n)]
    } else {
        decimal(n / 10).push(digit_char(n % 10))
    }
}

/// Number written by a string of decimal digits, most significant first.
pub open spec fn digits_value(s: Seq<char>) -> nat
    decreases s.len(),
{
    if s.len() == 0 {
        0
    } else {
        digits_value(s.drop_last()) * 10 + ((s.last() as nat) - 48) as nat
    }
}

/// The decimal text of `n` is made of digits `0`..`9`, starts with a
/// non-zero digit unless `n` is zero, and reads back as `n`.
pub proof fn law_decimal_reads_back(n: nat)
    ensures
        digits_value(decimal(n)) == n,
        decimal(n).len() >= 1,
        forall|i: int| 0 <= i < decimal(n).len() ==> '0' <= #[trigger] decimal(n)[i] <= '9',
        n >= 10 ==> decimal(n)[0] != '0',
        n < 10 ==> decimal(n).len() == 1,
    decreases n,
{
    assert(digit_char(n % 10) as nat == n % 10 + 48);
    if n < 10 {
        assert(decimal(n).drop_last() =~= Seq::<char>::empty());
        assert(digit_char(n) as nat == n + 48);
        assert(digits_value(Seq::<char>::empty()) == 0);
        assert(digits_value(decimal(n)) == digits_value(decimal(n).drop_last()) * 10 + ((
        decimal(n).last() as nat) - 48) as nat);
    }
    if n >= 10 {
        law_decimal_reads_back(n / 10);
        let d = decimal(n / 10);
        assert(decimal(n).drop_last() =~= d);
        assert(decimal(n).last() == digit_char(n % 10));
        assert(digits_value(decimal(n)) == digits_value(d) * 10 + n % 10);
        assert((n / 10) * 10 + n % 10 == n);
        assert(decimal(n)[0] == d[0]);
        assert forall|i: int| 0 <= i < decimal(n).len() implies '0' <= #[trigger] decimal(n)[i]
            <= '9' by {
            if i < d.len() {
                assert(decimal(n)[i] == d[i]);
            }
        }
        if n / 10 >= 10 {
        } else {
            assert(d[0] == digit_char(n / 10));
        }
    }
}

/// Text of one decimal digit.
fn digit_text(d: u16) -> (r: &'static str)
    requires
        d < 10,
    ensures
        r@ == seq![digit_char(d as nat)],
{
    proof {
        reveal_strlit("0");
        reveal_strlit("1");
        reveal_strlit("2");
        reveal_strlit("3");
        reveal_strlit("4");
        reveal_strlit("5");
        reveal_strlit("6");
        reveal_strlit("7");
        reveal_strlit("8");
        reveal_strlit("9");
    }
    match d {
        0 => "0",
        1 => "1",
        2 => "2",
        3 => "3",
        4 => "4",
        5 => "5",
        6 => "6",
        7 => "7",
        8 => "8",
        _ => "9",
    }
}

/// Decimal text of a port number.
pub fn decimal_text(n: u16) -> (r: String)
    ensures
        r@ == decimal(n as nat),
    decreases n,
{
    if n < 10 {
        String::from_str(digit_text(n))
    } else {
        let mut s = decimal_text(n / 10);
        s.append(digit_text(n % 10));
        proof {
            assert(s@ =~= decimal(n as nat));
        }
        s
    }
}

/// Name under which the service instance is announced.
pub fn service_display_name(hostname: &str) -> (r: String)
    ensures
        r@ == display_name_spec(hostname@),
{
    if hostname.is_empty() {
        String::from_str(SERVICE_NAME)
    } else {
        let mut s = String::from_str(SERVICE_NAME);
        s.append(" (");
        s.append(hostname);
        s.append(")");
        s
    }
}

/// Host name of the announced service.
pub fn service_host_name(hostname: &str) -> (r: String)
    ensures
        r@ == host_name_spec(hostname@),
{
    let mut s = String::from_str(hostname);
    s.append(".local.");
    s
}

/// Everything that is announced for the receiver.
pub struct ServiceAnnouncement {
    pub service_type: String,
    pub instance_name: String,
    pub host_name: String,
    pub address: String,
    pub port: u16,
    /// TXT record entries, as (key, value) pairs.
    pub properties: Vec<(String, String)>,
}

/// The announcement for a host: the display name, the host name, the
/// handshake port, and a TXT record with the display name, the protocol
/// version and the handshake port in decimal.
pub fn service_announcement(hostname: &str, tcp_port: u16) -> (r: ServiceAnnouncement)
    ensures
        r.service_type@ == SERVICE_TYPE@,
        r.instance_name@ == display_name_spec(hostname@),
        r.host_name@ == host_name_spec(hostname@),
        r.address@ == ANNOUNCED_ADDRESS@,
        r.port == tcp_port,
        r.properties@.len() == 3,
        r.properties@[0].0@ == "name"@ && r.properties@[0].1@ == display_name_spec(hostname@),
        r.properties@[1].0@ == "version"@ && r.properties@[1].1@ == SERVICE_VERSION@,
        r.properties@[2].0@ == "tcp_port"@ && r.properties@[2].1@ == decimal(tcp_port as nat),
{
    let instance_name = service_display_name(hostname);
    let mut properties: Vec<(String, String)> = Vec::new();
    properties.push((String::from_str("name"), service_display_name(hostname)));
    properties.push((String::from_str("version"), String::from_str(SERVICE_VERSION)));
    properties.push((String::from_str("tcp_port"), decimal_text(tcp_port)));
    ServiceAnnouncement {
        service_type: String::from_str(SERVICE_TYPE),
        instance_name,
        host_name: service_host_name(hostname),
        address: String::from_str(ANNOUNCED_ADDRESS),
        port: tcp_port,
        properties,
    }
}

} // verus!
