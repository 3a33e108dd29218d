use crate::human;
use vstd::prelude::*;
use vstd::string::StringExecFns;

verus! {

/// The console line announcing the response status, built around the
/// status text the HTTP client reported.
pub fn status_line(status_text: &str) -> (r: String)
    ensures
        r@ == "HTTP request sent... "@ + status_text@,
{
    let mut s = String::from_str("HTTP request sent... ");
    s.append(status_text);
    s
}

/// The console line reporting the declared length: the byte count with its
/// human-readable form, or the word for an unknown length.
pub fn length_line(declared: Option<u64>) -> (r: String)
    ensures
        (match declared {
            Some(len) => r@ == "Length: "@ + human::spec_decimal(len as nat) + " ("@
                + human::spec_format_bytes(len as nat) + ")"@,
            None => r@ == "Length: unknown"@,
        }),
{
    match declared {
        Some(len) => {
            let mut s = String::from_str("Length: ");
            human::push_decimal(&mut s, len);
            s.append(" (");
            let scaled = human::format_bytes(len);
            s.append(scaled.as_str());
            s.append(")");
            s
        },
        None => String::from_str("Length: unknown"),
    }
}

/// The console line reporting the content type.
pub fn type_line(content_type: &str) -> (r: String)
    ensures
        r@ == "Type: "@ + content_type@,
{
    let mut s = String::from_str("Type: ");
    s.append(content_type);
    s
}

/// The console line naming the output file.
pub fn saving_line(filename: &str) -> (r: String)
    ensures
        r@ == "Saving to: "@ + filename@,
{
    let mut s = String::from_str("Saving to: ");
    s.append(filename);
    s
}

} // verus!
