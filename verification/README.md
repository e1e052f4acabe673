# curvas

Command-line tool for the curve of alignment, the normal and central
sections, the geodesic and the loxodrome on an ellipsoid: inverse problem
(azimuth, distance, area between two points), direct problem (end point from
a point, an azimuth and a distance) and the area of a polygon whose vertices
are read from a CSV/TXT file.

Layout:

- `src/` — the library, verified with Verus:
  - `cli.rs`: interpretation of the command line (options, values, unknown
    tokens, errors and their messages), with the law that an accepted command
    line holds everything its problem needs and only numbers where numbers go;
  - `polygon.rs`: fields of a vertex-file line, integer identifiers, choice of
    the coordinate columns, the vertices of a file in order, the ring of edges and the joining of edge paths;
  - `output.rs`: names of the output files and the KML document;
  - `text.rs`: Unicode white space, trimming, text equality.
- `app/` — the program: floating-point geodesy (ellipsoid series, implicit
  curves, Runge-Kutta integration, Newton iterations, GeographicLib for the
  geodesic), file input and output (CSV, shapefiles, KML) and printing.
- `tests/` — tests of the library.
