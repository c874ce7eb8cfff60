use vstd::prelude::*;
use vstd::string::*;

verus! {

/// Paths of the optional geolocation databases.
#[derive(Debug, Clone)]
pub struct GeoIp {
    pub asn_db: Option<String>,
    pub city_db: Option<String>,
    pub country_db: Option<String>,
}

/// The firewall rules whose lines are shipped.
#[derive(Debug, Clone)]
pub struct Firewall {
    pub rules: Vec<String>,
}

/// `rule` is one of `rules`, character for character.
pub open spec fn rule_listed(rules: Seq<String>, rule: Seq<char>) -> bool {
    exists|i: int| 0 <= i < rules.len() && (#[trigger] rules[i])@ == rule
}

impl Firewall {
    /// Whether lines of `rule` are shipped: exact equality with a listed rule.
    pub fn accepts(&self, rule: &str) -> (r: bool)
        ensures
            r == rule_listed(self.rules@, rule@),
    {
        let wanted = String::from_str(rule);
        let mut i: usize = 0;
        while i < self.rules.len()
            invariant
                i <= self.rules.len(),
                wanted@ == rule@,
                forall|j: int| 0 <= j < i ==> (#[trigger] self.rules@[j])@ != rule@,
            decreases self.rules.len() - i,
        {
            if self.rules[i] == wanted {
                return true;
            }
            i = i + 1;
        }
        false
    }
}

/// Where batches are pushed.
#[derive(Debug, Clone)]
pub struct Loki {
    pub push_url: String,
}

/// The process configuration.
#[derive(Debug, Clone)]
pub struct Config {
    pub log_file: String,
    pub geoip: GeoIp,
    pub firewall: Firewall,
    pub loki: Loki,
}

/// Command-line arguments: the configuration file's path.
#[derive(Debug, Clone)]
pub struct Args {
    pub config: String,
}

/// The log file tailed when the configuration names none.
pub fn default_log_file() -> (r: String)
    ensures
        r@ == "/var/log/messages"@,
{
    String::from_str("/var/log/messages")
}

} // verus!
