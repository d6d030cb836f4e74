#!/bin/sh
# Runs a build command with the commit and its time in the environment.
# A variable that is set already stays as it is. Without git, or outside a
# checkout, a variable that is missing stays missing.
#
# Usage: sh extras/build_env.sh COMMAND [ARGUMENT...]

if [ -z "${VORTO_GIT_SHA+set}" ]; then
    sha=$(git rev-parse --short=12 HEAD 2>/dev/null) || sha=
    if [ -n "$sha" ]; then
        VORTO_GIT_SHA=$sha
        export VORTO_GIT_SHA
    fi
fi

if [ -z "${VORTO_BUILD_TIMESTAMP+set}" ]; then
    time=$(git show -s --format=%cI HEAD 2>/dev/null) || time=
    if [ -n "$time" ]; then
        VORTO_BUILD_TIMESTAMP=$time
        export VORTO_BUILD_TIMESTAMP
    fi
fi

exec "$@"
