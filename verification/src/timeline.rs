//! Timeline query construction: the view selection, the page-size clamp
//! and the exact SQL text for each combination of view, unread filter and
//! cursor pagination.

use vstd::prelude::*;
use vstd::string::*;

use crate::numstr::{dec_str_i64, i64_to_dec};
use crate::strutil::str_eq;

verus! {

/// Which shape of timeline rows a caller asked for.
#[derive(Debug, Clone, Copy, PartialEq, Eq, Structural)]
pub enum TimelineView {
    Full,
    Compact,
}

impl TimelineView {
    /// `"compact"` selects the compact view; anything else, or nothing,
    /// the full one.
    pub fn from_query(view: &Option<String>) -> (r: TimelineView)
        ensures
            r == (if view is Some && view->0@ == "compact"@ {
                TimelineView::Compact
            } else {
                TimelineView::Full
            }),
    {
        match view {
            Some(v) => {
                if str_eq(v.as_str(), "compact") {
                    TimelineView::Compact
                } else {
                    TimelineView::Full
                }
            },
            None => TimelineView::Full,
        }
    }
}

/// The page size actually used: the caller's limit clamped to 1..=200, or
/// 50 when none was given.
pub fn clamp_timeline_limit(limit: Option<i64>) -> (r: i64)
    ensures
        r == (match limit {
            Some(l) => {
                if l < 1 {
                    1int
                } else if l > 200 {
                    200int
                } else {
                    l as int
                }
            },
            None => 50int,
        }),
{
    match limit {
        Some(l) => {
            if l < 1 {
                1
            } else if l > 200 {
                200
            } else {
                l
            }
        },
        None => 50,
    }
}

/// The exact SQL text of a timeline query, for each combination of view,
/// unread filter and cursor pagination.
pub open spec fn timeline_query_spec(
    view: TimelineView,
    with_unread_filter: bool,
    with_cursor: bool,
) -> Seq<char> {
    let select_clause = if view == TimelineView::Full {
        (r#"
            SELECT
                fi.id,
                fi.feed_id,
                f.title as feed_title,
                fi.title,
                fi.description,
                fi.link,
                CAST(fi.pub_date AS TEXT) as pub_date,
                CAST(fi.read_at AS TEXT) as read_at
        "#)@
    } else {
        (r#"
            SELECT
                fi.id,
                fi.title,
                fi.description,
                fi.link
        "#)@
    };
    let from_clause = if view == TimelineView::Full {
        (r#"
        FROM feed_items fi
        JOIN feeds f ON f.id = fi.feed_id
        "#)@
    } else {
        (r#"
        FROM feed_items fi
        "#)@
    };
    let base_query = ("\n        ")@ + select_clause + ("\n        ")@ + from_clause + (
    "\n        ")@;
    if with_cursor {
        let where_clause = if with_unread_filter {
            (r#"
                fi.read_at IS NULL
                AND (
                    (cursor.pub_date IS NULL AND fi.pub_date IS NULL AND fi.id < ?1)
                    OR (cursor.pub_date IS NOT NULL AND (
                        fi.pub_date < cursor.pub_date
                        OR (fi.pub_date = cursor.pub_date AND fi.id < ?1)
                        OR fi.pub_date IS NULL
                    ))
                )
                "#)@
        } else {
            (r#"
                (
                    (cursor.pub_date IS NULL AND fi.pub_date IS NULL AND fi.id < ?1)
                    OR (cursor.pub_date IS NOT NULL AND (
                        fi.pub_date < cursor.pub_date
                        OR (fi.pub_date = cursor.pub_date AND fi.id < ?1)
                        OR fi.pub_date IS NULL
                    ))
                )
                "#)@
        };
        ("\n            WITH cursor AS (\n                SELECT pub_date FROM feed_items WHERE id = ?1\n            )\n            ")@
            + base_query + (", cursor\n            WHERE\n                ")@ + where_clause + (
        "\n            ORDER BY (fi.pub_date IS NULL) ASC, fi.pub_date DESC, fi.id DESC\n            LIMIT ?2\n            ")@
    } else {
        let where_clause = if with_unread_filter {
            ("fi.read_at IS NULL")@
        } else {
            ("1 = 1")@
        };
        ("\n            ")@ + base_query + ("\n            WHERE\n                ")@
            + where_clause + (
        "\n            ORDER BY (fi.pub_date IS NULL) ASC, fi.pub_date DESC, fi.id DESC\n            LIMIT ?\n            ")@
    }
}

/// Builds the timeline SQL for the given view, unread filter and cursor
/// mode.
pub fn build_timeline_query(
    view: TimelineView,
    with_unread_filter: bool,
    with_cursor: bool,
) -> (r: String)
    ensures
        r@ == timeline_query_spec(view, with_unread_filter, with_cursor),
{
    let select_clause: &str = if view == TimelineView::Full {
        r#"
            SELECT
                fi.id,
                fi.feed_id,
                f.title as feed_title,
                fi.title,
                fi.description,
                fi.link,
                CAST(fi.pub_date AS TEXT) as pub_date,
                CAST(fi.read_at AS TEXT) as read_at
        "#
    } else {
        r#"
            SELECT
                fi.id,
                fi.title,
                fi.description,
                fi.link
        "#
    };
    let from_clause: &str = if view == TimelineView::Full {
        r#"
        FROM feed_items fi
        JOIN feeds f ON f.id = fi.feed_id
        "#
    } else {
        r#"
        FROM feed_items fi
        "#
    };
    let mut base_query = String::from_str("\n        ");
    base_query.append(select_clause);
    base_query.append("\n        ");
    base_query.append(from_clause);
    base_query.append("\n        ");
    if with_cursor {
        let where_clause: &str = if with_unread_filter {
            r#"
                fi.read_at IS NULL
                AND (
                    (cursor.pub_date IS NULL AND fi.pub_date IS NULL AND fi.id < ?1)
                    OR (cursor.pub_date IS NOT NULL AND (
                        fi.pub_date < cursor.pub_date
                        OR (fi.pub_date = cursor.pub_date AND fi.id < ?1)
                        OR fi.pub_date IS NULL
                    ))
                )
                "#
        } else {
            r#"
                (
                    (cursor.pub_date IS NULL AND fi.pub_date IS NULL AND fi.id < ?1)
                    OR (cursor.pub_date IS NOT NULL AND (
                        fi.pub_date < cursor.pub_date
                        OR (fi.pub_date = cursor.pub_date AND fi.id < ?1)
                        OR fi.pub_date IS NULL
                    ))
                )
                "#
        };
        let mut out = String::from_str(
            "\n            WITH cursor AS (\n                SELECT pub_date FROM feed_items WHERE id = ?1\n            )\n            ",
        );
        out.append(base_query.as_str());
        out.append(", cursor\n            WHERE\n                ");
        out.append(where_clause);
        out.append(
            "\n            ORDER BY (fi.pub_date IS NULL) ASC, fi.pub_date DESC, fi.id DESC\n            LIMIT ?2\n            ",
        );
        proof {
            assert(out@ =~= timeline_query_spec(view, with_unread_filter, with_cursor));
        }
        out
    } else {
        let where_clause: &str = if with_unread_filter {
            "fi.read_at IS NULL"
        } else {
            "1 = 1"
        };
        let mut out = String::from_str("\n            ");
        out.append(base_query.as_str());
        out.append("\n            WHERE\n                ");
        out.append(where_clause);
        out.append(
            "\n            ORDER BY (fi.pub_date IS NULL) ASC, fi.pub_date DESC, fi.id DESC\n            LIMIT ?\n            ",
        );
        proof {
            assert(out@ =~= timeline_query_spec(view, with_unread_filter, with_cursor));
        }
        out
    }
}

/// The message rejecting an unknown pagination cursor.
pub fn before_id_error(before_id: i64) -> (r: String)
    ensures
        r@ == "before_id "@ + dec_str_i64(before_id as int) + " does not exist"@,
{
    let mut out = String::from_str("before_id ");
    let d = i64_to_dec(before_id);
    out.append(d.as_str());
    out.append(" does not exist");
    out
}

/// The message rejecting a mark-read of an unknown or already-read item.
pub fn item_not_found_error(id: i64) -> (r: String)
    ensures
        r@ == "Item with id "@ + dec_str_i64(id as int) + " not found or already read"@,
{
    let mut out = String::from_str("Item with id ");
    let d = i64_to_dec(id);
    out.append(d.as_str());
    out.append(" not found or already read");
    out
}

} // verus!
