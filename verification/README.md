# gitserious_tui

The verified core of gitserious's terminal screens.

* `src/` is the library, written and proved with Verus:
  * `document`, `issues`, `draft`: the structured commit document (its
    scaffold, the parser that splits it into fields, the reports raised
    when a draft is checked, and the values a checked draft carries);
  * `editor`, `composer`: the text editor that holds the document and the
    composer that keeps every schema heading intact while the author types;
  * `authoring`: the authoring session, from picking a commit type through
    composing to the review, as a state machine over terminal events;
  * `taxonomy`: the taxonomy configuration editor's screens, drafts and
    decisions, as a state machine that hands the caller the work to do;
  * `measure`, `layout`, `chrome`: widths, wrapping, minimum sizes, pane
    geometry, box-drawing rule merges and scrollbar placement;
  * `schema`, `text`: commit-type schemas and small text utilities.
* `tests/` exercises the library from outside.
* `app/` is the terminal adapter around it: the ratatui event loops, the
  drawing, and the calls into the gitserious application and commit rules.
