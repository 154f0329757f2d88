//! Weather reports.
use vstd::prelude::*;

verus! {

/// The units a weather report is given in.
#[derive(Debug, Clone, Copy, PartialEq, Eq, Structural)]
pub enum UnitChoices {
    Metric,
    Imperial,
}

impl UnitChoices {
    pub open spec fn spec_api_units(self) -> Seq<char> {
        match self {
            UnitChoices::Metric => "metric"@,
            UnitChoices::Imperial => "imperial"@,
        }
    }

    pub open spec fn spec_temperature_unit(self) -> Seq<char> {
        match self {
            UnitChoices::Metric => "C"@,
            UnitChoices::Imperial => "F"@,
        }
    }

    /// The units as the weather service names them.
    pub fn api_units(&self) -> (r: &'static str)
        ensures
            r@ == self.spec_api_units(),
    {
        match self {
            UnitChoices::Metric => "metric",
            UnitChoices::Imperial => "imperial",
        }
    }

    /// The temperature scale: Celsius or Fahrenheit.
    pub fn temperature_unit(&self) -> (r: &'static str)
        ensures
            r@ == self.spec_temperature_unit(),
    {
        match self {
            UnitChoices::Metric => "C",
            UnitChoices::Imperial => "F",
        }
    }
}

/// The current weather at a place, each figure already written out.
#[derive(Debug)]
pub struct CurrentWeather {
    pub name: String,
    pub country: String,
    pub lat: String,
    pub lon: String,
    pub conditions: String,
    pub temperature: String,
    pub feels_like: String,
}

/// The report for `w` in `units`.
pub open spec fn report_text(w: CurrentWeather, units: UnitChoices) -> Seq<char> {
    let u = units.spec_temperature_unit();
    "Weather for: "@ + w.name@ + ", "@ + w.country@ + " ("@ + w.lat@ + ", "@ + w.lon@
        + ")\n                Conditions: "@ + w.conditions@
        + "\n                Temperature: "@ + w.temperature@ + " °"@ + u + " (Feels like "@
        + w.feels_like@ + " °"@ + u + ")"@
}

/// The answer when the weather could not be fetched, for the reason `reason`.
pub open spec fn failure_text(reason: Seq<char>) -> Seq<char> {
    "Could not fetch weather because: "@ + reason
}

/// Answers a weather request from what the weather service returned: the report,
/// or why there is none.
pub fn weather(outcome: Result<CurrentWeather, String>, units: UnitChoices) -> (r: String)
    ensures
        match outcome {
            Ok(w) => r@ == report_text(w, units),
            Err(reason) => r@ == failure_text(reason@),
        },
{
    match outcome {
        Ok(w) => {
            let u = units.temperature_unit();
            let mut r = String::from_str("Weather for: ");
            r.append(w.name.as_str());
            r.append(", ");
            r.append(w.country.as_str());
            r.append(" (");
            r.append(w.lat.as_str());
            r.append(", ");
            r.append(w.lon.as_str());
            r.append(")\n                Conditions: ");
            r.append(w.conditions.as_str());
            r.append("\n                Temperature: ");
            r.append(w.temperature.as_str());
            r.append(" °");
            r.append(u);
            r.append(" (Feels like ");
            r.append(w.feels_like.as_str());
            r.append(" °");
            r.append(u);
            r.append(")");
            r
        },
        Err(reason) => {
            let mut r = String::from_str("Could not fetch weather because: ");
            r.append(reason.as_str());
            r
        },
    }
}

/// A report begins with the place and its coordinates, latitude first, whatever
/// the units.
pub proof fn lemma_report_coordinates(w: CurrentWeather, units: UnitChoices)
    ensures
        ({
            let head = "Weather for: "@ + w.name@ + ", "@ + w.country@ + " ("@ + w.lat@ + ", "@
                + w.lon@ + ")"@;
            report_text(w, units).take(head.len() as int) == head
        }),
{
    let head = "Weather for: "@ + w.name@ + ", "@ + w.country@ + " ("@ + w.lat@ + ", "@
        + w.lon@ + ")"@;
    let rest = "\n                Conditions: "@ + w.conditions@ + "\n                Temperature: "@
        + w.temperature@ + " °"@ + units.spec_temperature_unit() + " (Feels like "@
        + w.feels_like@ + " °"@ + units.spec_temperature_unit() + ")"@;
    reveal_strlit(")");
    reveal_strlit(")\n                Conditions: ");
    reveal_strlit("\n                Conditions: ");
    assert(")"@ + "\n                Conditions: "@ =~= ")\n                Conditions: "@);
    assert(report_text(w, units) =~= head + rest);
    assert((head + rest).take(head.len() as int) =~= head);
}

/// The units change a report only in the temperature letters: where a metric and an
/// imperial report differ, the one has `C` and the other `F`.
pub proof fn lemma_report_units_only_in_letters(w: CurrentWeather)
    ensures
        report_text(w, UnitChoices::Metric).len() == report_text(w, UnitChoices::Imperial).len(),
        forall|i: int|
            0 <= i < report_text(w, UnitChoices::Metric).len() && report_text(
                w,
                UnitChoices::Metric,
            )[i] != report_text(w, UnitChoices::Imperial)[i] ==> report_text(
                w,
                UnitChoices::Metric,
            )[i] == 'C' && report_text(w, UnitChoices::Imperial)[i] == 'F',
{
    reveal_strlit("C");
    reveal_strlit("F");
    let p1 = "Weather for: "@ + w.name@ + ", "@ + w.country@ + " ("@ + w.lat@ + ", "@ + w.lon@
        + ")\n                Conditions: "@ + w.conditions@ + "\n                Temperature: "@
        + w.temperature@ + " °"@;
    let p2 = " (Feels like "@ + w.feels_like@ + " °"@;
    let p3 = ")"@;
    let m = report_text(w, UnitChoices::Metric);
    let f = report_text(w, UnitChoices::Imperial);
    assert(m =~= p1 + seq!['C'] + p2 + seq!['C'] + p3);
    assert(f =~= p1 + seq!['F'] + p2 + seq!['F'] + p3);
    assert forall|i: int| 0 <= i < m.len() && m[i] != f[i] implies m[i] == 'C' && f[i] == 'F' by {
        let a = p1.len() as int;
        let b = a + 1 + p2.len();
        if i < a {
            assert(m[i] == p1[i] && f[i] == p1[i]);
        } else if i == a {
        } else if i < b {
            assert(m[i] == p2[i - a - 1] && f[i] == p2[i - a - 1]);
        } else if i == b {
        } else {
            assert(m[i] == p3[i - b - 1] && f[i] == p3[i - b - 1]);
        }
    }
}

} // verus!
