//! The event decoder: one raw text line to one structured [`Event`].

use vstd::prelude::*;
use crate::event::{DecodeError, Direction, Event, EventModel};
use crate::parse::{
    dec_value, is_u64_string, parse_u64, split_char, split_dunder, split_on_char,
    split_probe_token,
};

verus! {

/// The decoded meaning of one raw line, over the line's characters alone.
///
/// The line's space-separated fields are, in order: timestamp, activation id,
/// compound probe token, location (enter only), filename (enter only). The
/// probe token splits on `__` into the probe name and the direction tag,
/// which must be exactly `in` or `out`. An enter event's filename field has
/// its final character (a line-terminator artifact) removed. An exit event
/// needs only the first three fields and carries empty location and filename.
pub open spec fn spec_decode(line: Seq<char>, line_number: u64) -> Result<
    EventModel,
    DecodeError,
> {
    let fields = split_char(line, ' ');
    if fields.len() < 3 {
        Result::Err(DecodeError::MissingFields { line_number })
    } else {
        let parts = split_dunder(fields[2]);
        if parts.len() < 2 {
            Result::Err(DecodeError::BadDirection { line_number })
        } else if parts[1] != "in"@ && parts[1] != "out"@ {
            Result::Err(DecodeError::BadDirection { line_number })
        } else if !is_u64_string(fields[0]) {
            Result::Err(DecodeError::BadTimestamp { line_number })
        } else if !is_u64_string(fields[1]) {
            Result::Err(DecodeError::BadActivationId { line_number })
        } else if parts[1] == "in"@ {
            if fields.len() < 5 || fields[4].len() == 0 {
                Result::Err(DecodeError::MissingFields { line_number })
            } else {
                Result::Ok(
                    EventModel {
                        timestamp: dec_value(fields[0]) as u64,
                        activation_id: dec_value(fields[1]) as u64,
                        line_number,
                        probe_name: parts[0],
                        location: fields[3],
                        filename: fields[4].drop_last(),
                        direction: Direction::Enter,
                    },
                )
            }
        } else {
            Result::Ok(
                EventModel {
                    timestamp: dec_value(fields[0]) as u64,
                    activation_id: dec_value(fields[1]) as u64,
                    line_number,
                    probe_name: parts[0],
                    location: Seq::empty(),
                    filename: Seq::empty(),
                    direction: Direction::Exit,
                },
            )
        }
    }
}

fn is_tag_in(tag: &String) -> (r: bool)
    ensures
        r == (tag@ == "in"@),
{
    proof {
        reveal_strlit("in");
    }
    let s = tag.as_str();
    if s.unicode_len() == 2 {
        let r = s.get_char(0) == 'i' && s.get_char(1) == 'n';
        proof {
            if r {
                assert(tag@ =~= "in"@);
            }
        }
        r
    } else {
        false
    }
}

fn is_tag_out(tag: &String) -> (r: bool)
    ensures
        r == (tag@ == "out"@),
{
    proof {
        reveal_strlit("out");
    }
    let s = tag.as_str();
    if s.unicode_len() == 3 {
        let r = s.get_char(0) == 'o' && s.get_char(1) == 'u' && s.get_char(2) == 't';
        proof {
            if r {
                assert(tag@ =~= "out"@);
            }
        }
        r
    } else {
        false
    }
}

/// Decodes one raw input line into an [`Event`]; pure apart from allocation.
/// `line_number` is the 1-based position of the line, used in diagnostics.
pub fn decode_line(line: &str, line_number: u64) -> (r: Result<Event, DecodeError>)
    ensures
        match (r, spec_decode(line@, line_number)) {
            (Result::Ok(e), Result::Ok(m)) => e.deep_view() == m,
            (Result::Err(a), Result::Err(b)) => a == b,
            _ => false,
        },
{
    let fields = split_on_char(line, ' ');
    if fields.len() < 3 {
        return Result::Err(DecodeError::MissingFields { line_number });
    }
    let (probe_name, tag) = match split_probe_token(fields[2].as_str()) {
        Option::None => {
            return Result::Err(DecodeError::BadDirection { line_number });
        },
        Option::Some(p) => p,
    };
    let enter = is_tag_in(&tag);
    if !enter && !is_tag_out(&tag) {
        return Result::Err(DecodeError::BadDirection { line_number });
    }
    let timestamp = match parse_u64(fields[0].as_str()) {
        Option::None => {
            return Result::Err(DecodeError::BadTimestamp { line_number });
        },
        Option::Some(v) => v,
    };
    let activation_id = match parse_u64(fields[1].as_str()) {
        Option::None => {
            return Result::Err(DecodeError::BadActivationId { line_number });
        },
        Option::Some(v) => v,
    };
    if enter {
        if fields.len() < 5 {
            return Result::Err(DecodeError::MissingFields { line_number });
        }
        let fname_len = fields[4].as_str().unicode_len();
        if fname_len == 0 {
            return Result::Err(DecodeError::MissingFields { line_number });
        }
        let location = fields[3].clone();
        let filename = String::from_str(fields[4].as_str().substring_char(0, fname_len - 1));
        proof {
            assert(filename@ =~= split_char(line@, ' ')[4].drop_last());
        }
        Result::Ok(
            Event {
                timestamp,
                activation_id,
                line_number,
                probe_name,
                location,
                filename,
                direction: Direction::Enter,
            },
        )
    } else {
        Result::Ok(
            Event {
                timestamp,
                activation_id,
                line_number,
                probe_name,
                location: String::new(),
                filename: String::new(),
                direction: Direction::Exit,
            },
        )
    }
}

} // verus!
